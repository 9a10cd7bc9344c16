//! Billboard particles: a particle exists only as an entry of a list.
use vstd::prelude::*;

use crate::scalar::{LinearRgba, Rect, Scalar, Vec2, Vec3};
use crate::sprite::{FrameCell, SpriteAnim};

verus! {

#[derive(Clone, Copy, PartialEq, Eq, Structural, Debug)]
pub struct Particle {
    pub sprite: SpriteAnim,
    pub position: Vec3,
    pub velocity: Vec3,
    /// Downward acceleration in units/s^2.
    pub gravity: Scalar,
    /// World-space quad size.
    pub size: Vec2,
    /// Roll around the view axis, radians.
    pub rotation: Scalar,
    /// Multiplies the texture color.
    pub tint: LinearRgba,
    /// Seconds until removal; infinity loops until despawned by id.
    pub lifetime: Scalar,
    /// Size multiplier reached at end of life (1.0 = constant size).
    pub end_scale: Scalar,
    /// Position wiggle: max offset in world units, 0 = off.
    pub wiggle_amp: Scalar,
    /// Wiggle frequency in Hz.
    pub wiggle_freq: Scalar,
    /// Seconds lived so far; managed by [`Particles::update`].
    pub age: Scalar,
}

/// The particle that `Particle::default` builds.
pub open spec fn default_particle() -> Particle {
    Particle {
        sprite: SpriteAnim::full(),
        position: Vec3 { x: Scalar::zero(), y: Scalar::zero(), z: Scalar::zero() },
        velocity: Vec3 { x: Scalar::zero(), y: Scalar::zero(), z: Scalar::zero() },
        gravity: Scalar::zero(),
        size: Vec2 { x: Scalar::one(), y: Scalar::one() },
        rotation: Scalar::zero(),
        tint: LinearRgba {
            red: Scalar::one(),
            green: Scalar::one(),
            blue: Scalar::one(),
            alpha: Scalar::one(),
        },
        lifetime: Scalar::infinity(),
        end_scale: Scalar::one(),
        wiggle_amp: Scalar::zero(),
        wiggle_freq: Scalar::one(),
        age: Scalar::zero(),
    }
}

impl Default for Particle {
    fn default() -> (particle: Particle)
        ensures
            particle == default_particle(),
            particle.lifetime.bits == 0x7f80_0000,
            particle.age.bits == 0,
    {
        Particle {
            sprite: SpriteAnim::full(),
            position: Vec3 { x: Scalar::zero(), y: Scalar::zero(), z: Scalar::zero() },
            velocity: Vec3 { x: Scalar::zero(), y: Scalar::zero(), z: Scalar::zero() },
            gravity: Scalar::zero(),
            size: Vec2 { x: Scalar::one(), y: Scalar::one() },
            rotation: Scalar::zero(),
            tint: LinearRgba {
                red: Scalar::one(),
                green: Scalar::one(),
                blue: Scalar::one(),
                alpha: Scalar::one(),
            },
            lifetime: Scalar::infinity(),
            end_scale: Scalar::one(),
            wiggle_amp: Scalar::zero(),
            wiggle_freq: Scalar::one(),
            age: Scalar::zero(),
        }
    }
}

/// Where one frame of motion takes a particle, before the rules of
/// [`Particles::update`] are applied to it.
#[derive(Clone, Copy, PartialEq, Eq, Structural, Debug)]
pub struct Motion {
    /// Age at the end of the frame.
    pub age: Scalar,
    /// Vertical velocity after gravity.
    pub velocity_y: Scalar,
    /// Position after moving by the new velocity.
    pub position: Vec3,
    /// Height of the quad's center when it rests on the ground: half of its
    /// current height.
    pub rest_height: Scalar,
}

/// All that the shape of a particle's quad is computed from, besides the camera.
#[derive(Clone, Copy, PartialEq, Eq, Structural, Debug)]
pub struct Billboard {
    pub center: Vec3,
    /// Roll around the view axis, radians.
    pub rotation: Scalar,
    /// World-space size at the start of life.
    pub size: Vec2,
    /// Size multiplier reached at end of life.
    pub end_scale: Scalar,
    /// How far through its life the particle is.
    pub life: Scalar,
    /// Atlas region of the sprite.
    pub rect: Rect,
    /// Cell of that region that shows.
    pub cell: FrameCell,
}

impl Particle {
    /// Plays an animated sprite once, then despawns itself. `frames_over_fps`
    /// is the quotient of the sprite's two fields.
    pub fn one_shot(
        sprite: SpriteAnim,
        position: Vec3,
        size: Vec2,
        frames_over_fps: Scalar,
    ) -> (particle: Particle)
        ensures
            particle == (Particle {
                sprite,
                position,
                size,
                lifetime: sprite.playthrough(frames_over_fps),
                ..default_particle()
            }),
            particle.sprite == sprite,
            particle.position == position,
            particle.size == size,
            Scalar::zero().below(sprite.fps) ==> particle.lifetime == frames_over_fps,
            !Scalar::zero().below(sprite.fps) ==> particle.lifetime.bits == 0x7f80_0000,
    {
        let mut particle = Particle::default();
        particle.sprite = sprite;
        particle.position = position;
        particle.size = size;
        particle.lifetime = sprite.duration(frames_over_fps);
        particle
    }

    /// Whether a particle of this age is at the end of its life.
    pub open spec fn expires_at(self, age: Scalar) -> bool {
        self.lifetime.at_most(age)
    }

    /// The particle at the end of a frame that it survives.
    pub open spec fn moved(self, motion: Motion) -> Particle {
        Particle {
            age: motion.age,
            velocity: Vec3 { y: motion.velocity_y, ..self.velocity },
            position: Vec3 {
                y: motion.position.y.larger(motion.rest_height),
                ..motion.position
            },
            ..self
        }
    }

    /// One frame of a particle: `None` once it has lived its lifetime,
    /// otherwise the particle moved, and lifted onto the ground if it sank.
    pub fn step(&self, motion: Motion) -> (after: Option<Particle>)
        ensures
            self.expires_at(motion.age) ==> after is None,
            !self.expires_at(motion.age) ==> after == Some(self.moved(motion)),
            after is None <==> self.lifetime.at_most(motion.age),
            after matches Some(particle) ==> {
                &&& particle.age == motion.age
                &&& particle.velocity.x == self.velocity.x
                &&& particle.velocity.y == motion.velocity_y
                &&& particle.velocity.z == self.velocity.z
                &&& particle.position.x == motion.position.x
                &&& particle.position.y == motion.position.y.larger(motion.rest_height)
                &&& particle.position.z == motion.position.z
                &&& particle.sprite == self.sprite
                &&& particle.gravity == self.gravity
                &&& particle.size == self.size
                &&& particle.rotation == self.rotation
                &&& particle.tint == self.tint
                &&& particle.lifetime == self.lifetime
                &&& particle.end_scale == self.end_scale
                &&& particle.wiggle_amp == self.wiggle_amp
                &&& particle.wiggle_freq == self.wiggle_freq
            },
    {
        if self.lifetime.le(motion.age) {
            return None;
        }
        let mut after = *self;
        after.age = motion.age;
        after.velocity.y = motion.velocity_y;
        after.position = motion.position;
        after.position.y = motion.position.y.max(motion.rest_height);
        Some(after)
    }

    /// How far through its life the particle is, for its size on the ground:
    /// `age_over_lifetime` clamped to `0.0..=1.0`, and 0 when it lives forever.
    pub fn life_fraction(&self, age_over_lifetime: Scalar) -> (fraction: Scalar)
        ensures
            fraction == if self.lifetime.finite() {
                age_over_lifetime.unit()
            } else {
                Scalar::zero()
            },
    {
        if self.lifetime.is_finite() {
            age_over_lifetime.clamp_unit()
        } else {
            Scalar::zero()
        }
    }

    /// How far through its life the particle is, for its size on screen:
    /// `age_over_lifetime`, and 0 when it lives forever or has no life at all.
    pub open spec fn life_on_screen(self, age_over_lifetime: Scalar) -> Scalar {
        if self.lifetime.finite() && Scalar::zero().below(self.lifetime) {
            age_over_lifetime
        } else {
            Scalar::zero()
        }
    }

    /// Whether the position wiggles at all.
    pub open spec fn is_wiggly(self) -> bool {
        Scalar::zero().below(self.wiggle_amp)
    }

    pub fn wiggles(&self) -> (r: bool)
        ensures
            r == self.is_wiggly(),
            r == Scalar::zero().below(self.wiggle_amp),
    {
        Scalar::zero().lt(self.wiggle_amp)
    }

    /// What the particle's quad is computed from.
    pub open spec fn drawn_as(
        self,
        wiggled: Vec3,
        age_over_lifetime: Scalar,
        ticks: int,
    ) -> Billboard {
        Billboard {
            center: if self.is_wiggly() {
                wiggled
            } else {
                self.position
            },
            rotation: self.rotation,
            size: self.size,
            end_scale: self.end_scale,
            life: self.life_on_screen(age_over_lifetime),
            rect: self.sprite.rect,
            cell: self.sprite.cell_at(ticks),
        }
    }

    /// What the particle's quad is computed from: `wiggled` is its position
    /// with the wiggle of the moment, `age_over_lifetime` the quotient of the
    /// two fields, and `ticks` the integer part of `age * fps`.
    pub fn billboard(
        &self,
        wiggled: Vec3,
        age_over_lifetime: Scalar,
        ticks: u32,
    ) -> (billboard: Billboard)
        ensures
            billboard == self.drawn_as(wiggled, age_over_lifetime, ticks as int),
            billboard.center == if Scalar::zero().below(self.wiggle_amp) {
                wiggled
            } else {
                self.position
            },
            billboard.rotation == self.rotation,
            billboard.size == self.size,
            billboard.end_scale == self.end_scale,
            self.lifetime.finite() && Scalar::zero().below(self.lifetime) ==> billboard.life
                == age_over_lifetime,
            !self.lifetime.finite() || !Scalar::zero().below(self.lifetime) ==> billboard.life.bits
                == 0,
            billboard.rect == self.sprite.rect,
    {
        let center = if self.wiggles() {
            wiggled
        } else {
            self.position
        };
        let life = if self.lifetime.is_finite() && Scalar::zero().lt(self.lifetime) {
            age_over_lifetime
        } else {
            Scalar::zero()
        };
        Billboard {
            center,
            rotation: self.rotation,
            size: self.size,
            end_scale: self.end_scale,
            life,
            rect: self.sprite.rect,
            cell: self.sprite.frame_cell(ticks),
        }
    }
}

/// Names a particle for as long as it lives. No two particles of a list ever
/// share one.
#[derive(Clone, Copy, PartialEq, Eq, Structural, Debug)]
pub struct ParticleId(u64);

impl ParticleId {
    pub closed spec fn number(self) -> u64 {
        self.0
    }

    /// The position of the particle in the order of spawning, from 1.
    pub fn value(&self) -> (number: u64)
        ensures
            number == self.number(),
    {
        self.0
    }
}

/// Ids with the same number are the same id.
pub proof fn law_id_is_its_number(a: ParticleId, b: ParticleId)
    requires
        a.number() == b.number(),
    ensures
        a == b,
{
}

/// All live particles, oldest first. Spawning is pushing an entry.
pub struct Particles {
    live: Vec<(ParticleId, Particle)>,
    next: u64,
}

/// The entries without those of `id`.
pub open spec fn without(
    entries: Seq<(ParticleId, Particle)>,
    id: ParticleId,
) -> Seq<(ParticleId, Particle)> {
    entries.filter(|entry: (ParticleId, Particle)| entry.0 != id)
}

/// The entries that survive a frame, in their old order, each moved by the
/// motion at its own index.
pub open spec fn survivors(
    entries: Seq<(ParticleId, Particle)>,
    motions: Seq<Motion>,
) -> Seq<(ParticleId, Particle)>
    decreases entries.len(),
{
    if entries.len() == 0 {
        Seq::empty()
    } else {
        let earlier = survivors(entries.drop_last(), motions);
        let (id, particle) = entries.last();
        let motion = motions[entries.len() - 1];
        if particle.expires_at(motion.age) {
            earlier
        } else {
            earlier.push((id, particle.moved(motion)))
        }
    }
}

/// Ids grow along the list, and none is above the last one given out.
pub open spec fn ids_in_order(entries: Seq<(ParticleId, Particle)>, issued: nat) -> bool {
    &&& forall|i: int| 0 <= i < entries.len() ==> (#[trigger] entries[i]).0.number() <= issued
    &&& forall|i: int, j: int|
        0 <= i < j < entries.len() ==> (#[trigger] entries[i]).0.number() < (
        #[trigger] entries[j]).0.number()
}

impl View for Particles {
    type V = Seq<(ParticleId, Particle)>;

    closed spec fn view(&self) -> Seq<(ParticleId, Particle)> {
        self.live@
    }
}

impl Default for Particles {
    fn default() -> (particles: Particles)
        ensures
            particles@ == Seq::<(ParticleId, Particle)>::empty(),
            particles.issued() == 0,
            particles.wf(),
    {
        Particles { live: Vec::new(), next: 0 }
    }
}

impl Particles {
    /// How many ids have been given out.
    pub closed spec fn issued(&self) -> nat {
        self.next as nat
    }

    pub open spec fn wf(&self) -> bool {
        ids_in_order(self@, self.issued())
    }

    pub fn spawn(&mut self, particle: Particle) -> (id: ParticleId)
        requires
            old(self).wf(),
            old(self).issued() < u64::MAX,
        ensures
            final(self).wf(),
            id.number() == old(self).issued() + 1,
            final(self).issued() == old(self).issued() + 1,
            final(self)@ == old(self)@.push((id, particle)),
            forall|i: int| 0 <= i < old(self)@.len() ==> (#[trigger] old(self)@[i]).0 != id,
    {
        self.next = self.next + 1;
        let id = ParticleId(self.next);
        self.live.push((id, particle));
        id
    }

    /// Remove a particle early: how looping particles end.
    pub fn despawn(&mut self, id: ParticleId)
        requires
            old(self).wf(),
        ensures
            final(self).wf(),
            final(self).issued() == old(self).issued(),
            final(self)@ == without(old(self)@, id),
    {
        let ghost before = self.live@;
        let count = self.live.len();
        let mut read: usize = 0;
        let mut write: usize = 0;
        while read < count
            invariant
                write <= read <= count,
                count == before.len(),
                self.live@.len() == count,
                self.live@.take(write as int) =~= without(before.take(read as int), id),
                forall|i: int| read <= i < count ==> #[trigger] self.live@[i] == before[i],
                self.next == old(self).next,
            decreases count - read,
        {
            let entry = self.live[read];
            let ghost kept = self.live@.take(write as int);
            proof {
                reveal(Seq::filter);
                assert(before.take(read + 1).drop_last() =~= before.take(read as int));
            }
            if entry.0 != id {
                self.live[write] = entry;
                assert(self.live@.take(write + 1) =~= kept.push(entry));
                write = write + 1;
            }
            read = read + 1;
        }
        self.live.truncate(write);
        proof {
            assert(before.take(count as int) =~= before);
            lemma_without_keeps_order(before, old(self).issued(), id);
        }
    }

    /// Mutate a live particle, e.g. to move a looping emitter.
    pub fn get_mut(&mut self, id: ParticleId) -> (found: Option<&mut Particle>)
        requires
            old(self).wf(),
        ensures
            final(self).wf(),
            final(self).issued() == old(self).issued(),
            match found {
                Some(particle) => exists|i: int|
                    {
                        &&& 0 <= i < old(self)@.len()
                        &&& (#[trigger] old(self)@[i]) == (id, *particle)
                        &&& final(self)@ == old(self)@.update(i, (id, *final(particle)))
                    },
                None => {
                    &&& final(self)@ == old(self)@
                    &&& forall|i: int| 0 <= i < old(self)@.len() ==> (#[trigger] old(self)@[i]).0 != id
                },
            },
    {
        let mut i: usize = 0;
        while i < self.live.len()
            invariant
                old(self).wf(),
                *self == *old(self),
                i <= self.live.len(),
                forall|j: int| 0 <= j < i ==> (#[trigger] self.live@[j]).0 != id,
            decreases self.live.len() - i,
        {
            if self.live[i].0 == id {
                assert(old(self)@[i as int].0 == id);
                assert forall|particle: Particle|
                    ids_in_order(
                        #[trigger] old(self)@.update(i as int, (id, particle)),
                        old(self).issued(),
                    ) by {
                    let after = old(self)@.update(i as int, (id, particle));
                    assert(forall|j: int| 0 <= j < after.len() ==> (#[trigger] after[j]).0 == old(self)@[j].0);
                }
                return Some(&mut self.live[i].1);
            }
            i = i + 1;
        }
        None
    }

    /// The number of the last id given out, 0 before the first.
    pub fn last_issued(&self) -> (number: u64)
        ensures
            number == self.issued(),
    {
        self.next
    }

    /// Number of live particles.
    pub fn len(&self) -> (count: usize)
        ensures
            count == self@.len(),
    {
        self.live.len()
    }

    /// The entry at `index`, oldest first.
    pub fn entry(&self, index: usize) -> (entry: (ParticleId, Particle))
        requires
            index < self@.len(),
        ensures
            entry == self@[index as int],
    {
        self.live[index]
    }

    /// Ages and moves every particle by one frame, and removes those whose
    /// life is over. `motions` gives the motion of each live particle, oldest
    /// first.
    pub fn update(&mut self, motions: &Vec<Motion>)
        requires
            old(self).wf(),
            motions@.len() == old(self)@.len(),
        ensures
            final(self).wf(),
            final(self).issued() == old(self).issued(),
            final(self)@ == survivors(old(self)@, motions@),
    {
        let ghost before = self.live@;
        let count = self.live.len();
        let mut read: usize = 0;
        let mut write: usize = 0;
        while read < count
            invariant
                write <= read <= count,
                count == before.len(),
                motions@.len() == count,
                self.live@.len() == count,
                self.live@.take(write as int) =~= survivors(before.take(read as int), motions@),
                forall|i: int| read <= i < count ==> #[trigger] self.live@[i] == before[i],
                self.next == old(self).next,
            decreases count - read,
        {
            let (id, particle) = self.live[read];
            let ghost kept = self.live@.take(write as int);
            proof {
                assert(before.take(read + 1).drop_last() =~= before.take(read as int));
            }
            if let Some(after) = particle.step(motions[read]) {
                self.live[write] = (id, after);
                assert(self.live@.take(write + 1) =~= kept.push((id, after)));
                write = write + 1;
            }
            read = read + 1;
        }
        self.live.truncate(write);
        proof {
            assert(before.take(count as int) =~= before);
            lemma_survivors_keep_order(before, motions@, old(self).issued());
        }
    }
}

/// What is left after removing an id was there before, and is in order.
proof fn lemma_without_keeps_order(
    entries: Seq<(ParticleId, Particle)>,
    issued: nat,
    id: ParticleId,
)
    requires
        ids_in_order(entries, issued),
    ensures
        ids_in_order(without(entries, id), issued),
        forall|k: int|
            0 <= k < without(entries, id).len() ==> entries.contains(
                #[trigger] without(entries, id)[k],
            ),
    decreases entries.len(),
{
    reveal(Seq::filter);
    if entries.len() > 0 {
        let rest = entries.drop_last();
        let left = without(rest, id);
        lemma_without_keeps_order(rest, issued, id);
        assert forall|k: int| 0 <= k < left.len() implies entries.contains(#[trigger] left[k])
            && left[k].0.number() < entries.last().0.number() by {
            let j = choose|j: int| 0 <= j < rest.len() && rest[j] == left[k];
            assert(entries[j] == left[k]);
        }
    }
}

/// Survivors of a frame keep the order of their ids.
proof fn lemma_survivors_keep_order(
    entries: Seq<(ParticleId, Particle)>,
    motions: Seq<Motion>,
    issued: nat,
)
    requires
        ids_in_order(entries, issued),
    ensures
        ids_in_order(survivors(entries, motions), issued),
        forall|k: int|
            #![trigger survivors(entries, motions)[k]]
            0 <= k < survivors(entries, motions).len() ==> exists|i: int|
                0 <= i < entries.len() && (#[trigger] entries[i]).0 == survivors(
                    entries,
                    motions,
                )[k].0,
    decreases entries.len(),
{
    if entries.len() > 0 {
        let rest = entries.drop_last();
        let left = survivors(rest, motions);
        lemma_survivors_keep_order(rest, motions, issued);
        let all = survivors(entries, motions);
        assert forall|k: int| 0 <= k < left.len() implies (exists|i: int|
            0 <= i < entries.len() && (#[trigger] entries[i]).0 == (#[trigger] left[k]).0)
            && left[k].0.number() < entries.last().0.number() by {
            let i = choose|i: int| 0 <= i < rest.len() && (#[trigger] rest[i]).0 == left[k].0;
            assert(entries[i].0 == left[k].0);
        }
        assert forall|k: int| #![trigger all[k]] 0 <= k < all.len() implies exists|i: int|
            0 <= i < entries.len() && (#[trigger] entries[i]).0 == all[k].0 by {
            if k < left.len() {
                assert(all[k] == left[k]);
            } else {
                assert(entries[entries.len() - 1].0 == all[k].0);
            }
        }
    }
}

/// Despawning what was just spawned leaves the list as it was.
pub proof fn law_despawn_undoes_spawn(
    entries: Seq<(ParticleId, Particle)>,
    issued: nat,
    id: ParticleId,
    particle: Particle,
)
    requires
        ids_in_order(entries, issued),
        id.number() == issued + 1,
    ensures
        without(entries.push((id, particle)), id) == entries,
{
    reveal(Seq::filter);
    lemma_absent_id_changes_nothing(entries, id);
    assert(entries.push((id, particle)).drop_last() =~= entries);
}

/// Despawning an id that is not live changes nothing.
pub proof fn law_despawn_of_unknown_id_changes_nothing(
    entries: Seq<(ParticleId, Particle)>,
    id: ParticleId,
)
    requires
        forall|i: int| 0 <= i < entries.len() ==> (#[trigger] entries[i]).0 != id,
    ensures
        without(entries, id) == entries,
{
    lemma_absent_id_changes_nothing(entries, id);
}

/// Filtering out an id that is not there keeps every entry.
proof fn lemma_absent_id_changes_nothing(entries: Seq<(ParticleId, Particle)>, id: ParticleId)
    requires
        forall|i: int| 0 <= i < entries.len() ==> (#[trigger] entries[i]).0 != id,
    ensures
        without(entries, id) == entries,
    decreases entries.len(),
{
    reveal(Seq::filter);
    if entries.len() > 0 {
        lemma_absent_id_changes_nothing(entries.drop_last(), id);
        assert(entries.drop_last().push(entries.last()) =~= entries);
    }
}

/// Despawning takes exactly the named particle: its id is gone, and every other
/// entry stays.
pub proof fn law_despawn_takes_only_its_particle(
    entries: Seq<(ParticleId, Particle)>,
    id: ParticleId,
    entry: (ParticleId, Particle),
)
    ensures
        without(entries, id).contains(entry) <==> entries.contains(entry) && entry.0 != id,
    decreases entries.len(),
{
    reveal(Seq::filter);
    if entries.len() > 0 {
        let rest = entries.drop_last();
        law_despawn_takes_only_its_particle(rest, id, entry);
        assert(rest.push(entries.last()) =~= entries);
        lemma_contains_after_push(rest, entries.last(), entry);
        lemma_contains_after_push(without(rest, id), entries.last(), entry);
    }
}

/// Pushing adds the pushed item and nothing else.
proof fn lemma_contains_after_push<A>(items: Seq<A>, last: A, item: A)
    ensures
        items.push(last).contains(item) <==> items.contains(item) || item == last,
{
    let all = items.push(last);
    if items.contains(item) {
        let i = choose|i: int| 0 <= i < items.len() && items[i] == item;
        assert(all[i] == item);
    }
    if item == last {
        assert(all[items.len() as int] == item);
    }
    if all.contains(item) && item != last {
        let i = choose|i: int| 0 <= i < all.len() && all[i] == item;
        assert(items[i] == item);
    }
}

/// A frame removes exactly the particles whose life is over: an id is live
/// afterwards if and only if its particle was live and did not expire.
pub proof fn law_update_removes_the_expired(
    entries: Seq<(ParticleId, Particle)>,
    motions: Seq<Motion>,
    id: ParticleId,
)
    ensures
        (exists|k: int|
            0 <= k < survivors(entries, motions).len() && (#[trigger] survivors(
                entries,
                motions,
            )[k]).0 == id) <==> (exists|i: int|
            0 <= i < entries.len() && (#[trigger] entries[i]).0 == id
                && !entries[i].1.expires_at(motions[i].age)),
    decreases entries.len(),
{
    if entries.len() > 0 {
        let rest = entries.drop_last();
        let last = entries.len() - 1;
        let left = survivors(rest, motions);
        let all = survivors(entries, motions);
        law_update_removes_the_expired(rest, motions, id);
        if exists|k: int| 0 <= k < all.len() && (#[trigger] all[k]).0 == id {
            let k = choose|k: int| 0 <= k < all.len() && (#[trigger] all[k]).0 == id;
            if k < left.len() {
                assert(left[k].0 == id);
                let i = choose|i: int|
                    0 <= i < rest.len() && (#[trigger] rest[i]).0 == id
                        && !rest[i].1.expires_at(motions[i].age);
                assert(entries[i].0 == id);
            } else {
                assert(entries[last].0 == id);
            }
        }
        if exists|i: int|
            0 <= i < entries.len() && (#[trigger] entries[i]).0 == id
                && !entries[i].1.expires_at(motions[i].age) {
            let i = choose|i: int|
                0 <= i < entries.len() && (#[trigger] entries[i]).0 == id
                    && !entries[i].1.expires_at(motions[i].age);
            if i < last {
                assert(rest[i].0 == id);
                let k = choose|k: int| 0 <= k < left.len() && (#[trigger] left[k]).0 == id;
                assert(all[k].0 == id);
            } else {
                assert(all[left.len() as int].0 == id);
            }
        }
    }
}

/// Looping particles end only by being despawned: at no finite age does an
/// infinite lifetime run out.
pub proof fn law_looping_particles_stay(particle: Particle, age: Scalar)
    requires
        particle.lifetime == Scalar::infinity(),
        age.finite(),
    ensures
        !particle.expires_at(age),
{
}

/// A one-shot particle of an animated sprite lives for one playthrough: it is
/// gone from the age of `frames / fps` on, and not before.
pub proof fn law_one_shot_plays_once(
    sprite: SpriteAnim,
    position: Vec3,
    size: Vec2,
    frames_over_fps: Scalar,
    age: Scalar,
)
    requires
        sprite.plays(),
    ensures
        (Particle {
            sprite,
            position,
            size,
            lifetime: sprite.playthrough(frames_over_fps),
            ..default_particle()
        }).expires_at(age) <==> frames_over_fps.at_most(age),
{
}

/// Nothing sinks into the ground: after a frame, no particle is below the
/// height at which its quad rests on it.
pub proof fn law_particles_stay_above_ground(particle: Particle, motion: Motion)
    ensures
        !particle.moved(motion).position.y.below(motion.rest_height),
{
}

/// After a frame, every particle left is one that was there, at the place its
/// motion took it to, except that it is lifted to the height at which its quad
/// rests on the ground if it sank below: never sideways, and never further.
pub proof fn law_survivors_rest_on_the_ground(
    entries: Seq<(ParticleId, Particle)>,
    motions: Seq<Motion>,
    k: int,
)
    requires
        0 <= k < survivors(entries, motions).len(),
    ensures
        exists|i: int|
            {
                let (id, after) = survivors(entries, motions)[k];
                let motion = motions[i];
                &&& 0 <= i < entries.len()
                &&& (#[trigger] entries[i]).0 == id
                &&& after == entries[i].1.moved(motion)
                &&& after.position.x == motion.position.x
                &&& after.position.z == motion.position.z
                &&& after.position.y == motion.position.y.larger(motion.rest_height)
                &&& !after.position.y.below(motion.rest_height)
            },
    decreases entries.len(),
{
    let rest = entries.drop_last();
    let last = entries.len() - 1;
    let (id, after) = survivors(entries, motions)[k];
    if k < survivors(rest, motions).len() {
        law_survivors_rest_on_the_ground(rest, motions, k);
        let i = choose|i: int|
            {
                let motion = motions[i];
                &&& 0 <= i < rest.len()
                &&& (#[trigger] rest[i]).0 == id
                &&& after == rest[i].1.moved(motion)
            };
        assert(entries[i] == rest[i]);
    } else {
        assert(entries[last].0 == id);
    }
}

/// A wiggle amplitude of 0 is off: then neither the wiggle of the moment nor
/// its frequency has any part in what a particle's quad is computed from.
pub proof fn law_no_amplitude_no_wiggle(
    particle: Particle,
    wiggle_freq: Scalar,
    wiggled: Vec3,
    other_wiggled: Vec3,
    age_over_lifetime: Scalar,
    ticks: int,
)
    requires
        particle.wiggle_amp.same(Scalar::zero()),
    ensures
        particle.drawn_as(wiggled, age_over_lifetime, ticks) == (Particle {
            wiggle_freq,
            ..particle
        }).drawn_as(other_wiggled, age_over_lifetime, ticks),
{
}

/// A frame changes nothing of a particle but its age, its position and its
/// vertical velocity.
pub proof fn law_motion_is_all_that_changes(particle: Particle, motion: Motion)
    ensures
        ({
            let after = particle.moved(motion);
            particle == Particle {
                age: particle.age,
                position: particle.position,
                velocity: Vec3 { y: particle.velocity.y, ..after.velocity },
                ..after
            }
        }),
{
}

/// Life ends at the lifetime and by nothing else: a particle is at its end
/// exactly when its lifetime is at most its age, whatever its other fields are.
pub proof fn law_only_the_lifetime_ends_a_life(particle: Particle, other: Particle, age: Scalar)
    ensures
        particle.expires_at(age) <==> particle.lifetime.at_most(age),
        particle.lifetime == other.lifetime ==> particle.expires_at(age) == other.expires_at(age),
{
}

/// Once over, a life stays over; and before that it was not over.
pub proof fn law_life_ends_once(particle: Particle, earlier: Scalar, later: Scalar)
    requires
        earlier.at_most(later),
    ensures
        particle.expires_at(earlier) ==> particle.expires_at(later),
        !particle.lifetime.nan() && later.below(particle.lifetime) ==> !particle.expires_at(
            earlier,
        ) && !particle.expires_at(later),
{
}

/// After a frame an id is live exactly if its particle was live and its lifetime
/// is not at most its new age.
pub proof fn law_lives_end_at_the_lifetime(
    entries: Seq<(ParticleId, Particle)>,
    motions: Seq<Motion>,
    id: ParticleId,
)
    ensures
        (exists|k: int|
            0 <= k < survivors(entries, motions).len() && (#[trigger] survivors(
                entries,
                motions,
            )[k]).0 == id) <==> (exists|i: int|
            0 <= i < entries.len() && (#[trigger] entries[i]).0 == id
                && !entries[i].1.lifetime.at_most(motions[i].age)),
{
    law_update_removes_the_expired(entries, motions, id);
}

/// Where a particle is after a frame that it survives, field by field: moved by
/// the motion, at the height it was taken to if that is a number and not below
/// the ground, and at rest on the ground otherwise.
pub proof fn law_motion_field_by_field(particle: Particle, motion: Motion)
    ensures
        ({
            let after = particle.moved(motion);
            &&& after.age == motion.age
            &&& after.velocity.x == particle.velocity.x
            &&& after.velocity.y == motion.velocity_y
            &&& after.velocity.z == particle.velocity.z
            &&& after.position.x == motion.position.x
            &&& after.position.z == motion.position.z
            &&& after.position.y == if motion.position.y.nan() || motion.position.y.below(
                motion.rest_height,
            ) {
                motion.rest_height
            } else {
                motion.position.y
            }
            &&& after.sprite == particle.sprite
            &&& after.gravity == particle.gravity
            &&& after.size == particle.size
            &&& after.rotation == particle.rotation
            &&& after.tint == particle.tint
            &&& after.lifetime == particle.lifetime
            &&& after.end_scale == particle.end_scale
            &&& after.wiggle_amp == particle.wiggle_amp
            &&& after.wiggle_freq == particle.wiggle_freq
        }),
{
}

/// A frame treats each particle by itself: one more particle at the end of the
/// list changes nothing for the others, is gone if its lifetime is at most its
/// new age, and is the last one left otherwise.
pub proof fn law_each_particle_by_itself(
    entries: Seq<(ParticleId, Particle)>,
    motions: Seq<Motion>,
    id: ParticleId,
    particle: Particle,
    motion: Motion,
)
    requires
        entries.len() == motions.len(),
    ensures
        ({
            let before = survivors(entries, motions);
            let after = survivors(entries.push((id, particle)), motions.push(motion));
            &&& entries.len() == 0 ==> before.len() == 0
            &&& particle.lifetime.at_most(motion.age) ==> after == before
            &&& !particle.lifetime.at_most(motion.age) ==> {
                &&& after.len() == before.len() + 1
                &&& forall|k: int| 0 <= k < before.len() ==> #[trigger] after[k] == before[k]
                &&& after.last().0 == id
                &&& after.last().1 == particle.moved(motion)
            }
        }),
{
    lemma_motions_beyond_the_list(entries, motions, motions.push(motion));
    assert(entries.push((id, particle)).drop_last() =~= entries);
}

/// Only the motions of the particles that are there matter.
proof fn lemma_motions_beyond_the_list(
    entries: Seq<(ParticleId, Particle)>,
    motions: Seq<Motion>,
    others: Seq<Motion>,
)
    requires
        forall|i: int| 0 <= i < entries.len() ==> #[trigger] motions[i] == others[i],
    ensures
        survivors(entries, motions) == survivors(entries, others),
    decreases entries.len(),
{
    if entries.len() > 0 {
        lemma_motions_beyond_the_list(entries.drop_last(), motions, others);
        assert(motions[entries.len() - 1] == others[entries.len() - 1]);
    }
}

/// Despawning closes the gap: of a list in which no id comes twice, the entry
/// of the id is taken out and all the others stay in their order.
pub proof fn law_despawn_closes_the_gap(entries: Seq<(ParticleId, Particle)>, at: int)
    requires
        0 <= at < entries.len(),
        forall|i: int|
            0 <= i < entries.len() && i != at ==> (#[trigger] entries[i]).0 != entries[at].0,
    ensures
        without(entries, entries[at].0) == entries.take(at) + entries.skip(at + 1),
    decreases entries.len(),
{
    reveal(Seq::filter);
    let rest = entries.drop_last();
    let last = entries.len() - 1;
    if at == last {
        lemma_absent_id_changes_nothing(rest, entries[at].0);
        assert(entries.take(at) + entries.skip(at + 1) =~= rest);
    } else {
        law_despawn_closes_the_gap(rest, at);
        assert(entries.take(at) + entries.skip(at + 1) =~= (rest.take(at) + rest.skip(at + 1)).push(
            entries[last],
        ));
    }
}

/// No two live particles share an id, older ones come first, and no id is live
/// that was not given out.
pub proof fn law_ids_tell_particles_apart(particles: Particles, i: int, j: int)
    requires
        particles.wf(),
        0 <= i < j < particles@.len(),
    ensures
        particles@[i].0 != particles@[j].0,
        particles@[i].0.number() < particles@[j].0.number() <= particles.issued(),
{
}

/// What a quad is computed from, field by field. Its size follows the life of
/// every particle with a finite lifetime above 0, and of no other; its place is
/// the wiggled one exactly if the amplitude is above 0.
pub proof fn law_billboards_field_by_field(
    particle: Particle,
    wiggled: Vec3,
    age_over_lifetime: Scalar,
    ticks: int,
)
    ensures
        ({
            let board = particle.drawn_as(wiggled, age_over_lifetime, ticks);
            &&& particle.lifetime.finite() && Scalar::zero().below(particle.lifetime)
                ==> board.life == age_over_lifetime
            &&& !(particle.lifetime.finite() && Scalar::zero().below(particle.lifetime))
                ==> board.life.bits == 0
            &&& Scalar::zero().below(particle.wiggle_amp) ==> board.center == wiggled
            &&& !Scalar::zero().below(particle.wiggle_amp) ==> board.center == particle.position
            &&& board.rotation == particle.rotation
            &&& board.size == particle.size
            &&& board.end_scale == particle.end_scale
            &&& board.rect == particle.sprite.rect
            &&& board.cell == particle.sprite.cell_at(ticks)
        }),
{
}

/// Size and place do not meddle: particles of the same lifetime have the same
/// life on screen, however they wiggle, and particles of the same amplitude and
/// position the same center, however long they live.
pub proof fn law_life_and_wiggle_are_independent(
    particle: Particle,
    other: Particle,
    wiggled: Vec3,
    age_over_lifetime: Scalar,
    ticks: int,
    other_ticks: int,
)
    ensures
        particle.lifetime == other.lifetime ==> particle.drawn_as(
            wiggled,
            age_over_lifetime,
            ticks,
        ).life == other.drawn_as(other.position, age_over_lifetime, other_ticks).life,
        particle.wiggle_amp == other.wiggle_amp && particle.position == other.position
            ==> particle.drawn_as(wiggled, age_over_lifetime, ticks).center == other.drawn_as(
            wiggled,
            other.age,
            other_ticks,
        ).center,
{
}

/// The default particle: the whole atlas, white, of size 1, at rest at the
/// origin, living forever, of constant size and without a wiggle.
pub proof fn law_default_particle_field_by_field()
    ensures
        ({
            let particle = default_particle();
            &&& particle.sprite == SpriteAnim::full()
            &&& particle.position.x.bits == 0
            &&& particle.position.y.bits == 0
            &&& particle.position.z.bits == 0
            &&& particle.velocity == particle.position
            &&& particle.gravity.bits == 0
            &&& particle.size.x.bits == 0x3f80_0000
            &&& particle.size.y.bits == 0x3f80_0000
            &&& particle.rotation.bits == 0
            &&& particle.tint.red.bits == 0x3f80_0000
            &&& particle.tint.green.bits == 0x3f80_0000
            &&& particle.tint.blue.bits == 0x3f80_0000
            &&& particle.tint.alpha.bits == 0x3f80_0000
            &&& particle.lifetime.bits == 0x7f80_0000
            &&& particle.end_scale.bits == 0x3f80_0000
            &&& particle.wiggle_amp.bits == 0
            &&& particle.wiggle_freq.bits == 0x3f80_0000
            &&& particle.age.bits == 0
        }),
{
}

} // verus!
