//! Ribbon trails: a bounded queue of sampled points, eaten from the tail.
use std::collections::VecDeque;

use vstd::prelude::*;

use crate::scalar::{LinearRgba, Scalar, Vec3};
use crate::sprite::SpriteAnim;
use crate::timer::{EmitTimer, Span};

verus! {

/// One sample of the emitter's path.
#[derive(Clone, Copy, PartialEq, Eq, Structural, Debug)]
pub struct TrailPoint {
    pub position: Vec3,
    pub timestamp: Scalar,
}

/// Ribbon trail emitter. Width tapers to zero at the tail. The sprite may be
/// animated.
pub struct Trail {
    pub sprite: SpriteAnim,
    pub tint: LinearRgba,
    pub max_points: usize,
    pub width: Scalar,
    /// Seconds a point lives before the tail eats it.
    pub max_age: Scalar,
    /// Makes new points due.
    pub timer: EmitTimer,
    /// The tail first, the head last.
    pub points: VecDeque<TrailPoint>,
}

/// `5.0`, the age at which points are eaten unless told otherwise.
pub const DEFAULT_MAX_AGE_BITS: u32 = 0x40a0_0000;

/// The last `count` points, or all of them when there are no more than that.
pub open spec fn newest(points: Seq<TrailPoint>, count: int) -> Seq<TrailPoint> {
    if points.len() > count {
        points.skip(points.len() - count)
    } else {
        points
    }
}

/// The points with the head, the newest one, moved to `position`.
pub open spec fn hugging(points: Seq<TrailPoint>, position: Vec3) -> Seq<TrailPoint> {
    if points.len() == 0 {
        points
    } else {
        points.update(
            points.len() - 1,
            TrailPoint { position, timestamp: points.last().timestamp },
        )
    }
}

/// The points after sampling an emitter at `position`: a new point when one is
/// due or there is none, at most `max_points` of them then, and the head on
/// the emitter.
pub open spec fn sampled(
    points: Seq<TrailPoint>,
    due: bool,
    max_points: int,
    position: Vec3,
    now: Scalar,
) -> Seq<TrailPoint> {
    let grown = if due || points.len() == 0 {
        newest(points.push(TrailPoint { position, timestamp: now }), max_points)
    } else {
        points
    };
    hugging(grown, position)
}

/// How many points the tail eats: those at the front that are older than
/// `max_age`, up to the first one that is not.
pub open spec fn eaten(ages: Seq<Scalar>, max_age: Scalar) -> nat
    decreases ages.len(),
{
    if ages.len() > 0 && max_age.below(ages[0]) {
        1 + eaten(ages.skip(1), max_age)
    } else {
        0
    }
}

impl View for Trail {
    type V = Seq<TrailPoint>;

    open spec fn view(&self) -> Seq<TrailPoint> {
        self.points@
    }
}

impl Trail {
    pub open spec fn wf(&self) -> bool {
        self.timer.wf()
    }

    /// Everything but the points and the timer.
    pub open spec fn same_settings(&self, other: &Trail) -> bool {
        &&& self.sprite == other.sprite
        &&& self.tint == other.tint
        &&& self.max_points == other.max_points
        &&& self.width == other.width
        &&& self.max_age == other.max_age
    }

    /// A trail that samples one point per `period`, the inverse of its
    /// emission rate.
    pub fn new(sprite: SpriteAnim, max_points: usize, period: Span, width: Scalar) -> (trail: Trail)
        requires
            period.wf(),
        ensures
            trail.wf(),
            trail.sprite == sprite,
            trail.tint == (LinearRgba {
                red: Scalar::one(),
                green: Scalar::one(),
                blue: Scalar::one(),
                alpha: Scalar::one(),
            }),
            trail.max_points == max_points,
            trail.width == width,
            trail.max_age.bits == DEFAULT_MAX_AGE_BITS,
            trail.max_age.bits == 0x40a0_0000,
            trail.timer.period == period,
            trail.timer.elapsed.total() == 0,
            trail@ == Seq::<TrailPoint>::empty(),
    {
        Trail {
            sprite,
            tint: LinearRgba {
                red: Scalar::one(),
                green: Scalar::one(),
                blue: Scalar::one(),
                alpha: Scalar::one(),
            },
            max_points,
            width,
            max_age: Scalar::from_bits(DEFAULT_MAX_AGE_BITS),
            timer: EmitTimer::new(period),
            points: VecDeque::new(),
        }
    }

    pub fn with_max_age(self, max_age: Scalar) -> (trail: Trail)
        ensures
            trail.max_age == max_age,
            trail.sprite == self.sprite,
            trail.tint == self.tint,
            trail.max_points == self.max_points,
            trail.width == self.width,
            trail.timer == self.timer,
            trail@ == self@,
    {
        let mut trail = self;
        trail.max_age = max_age;
        trail
    }

    /// Number of points, the tail first and the head last.
    pub fn len(&self) -> (count: usize)
        ensures
            count == self@.len(),
    {
        self.points.len()
    }

    /// The point at `index`, counted from the tail.
    pub fn point(&self, index: usize) -> (point: TrailPoint)
        requires
            index < self@.len(),
        ensures
            point == self@[index as int],
    {
        self.points[index]
    }

    /// Samples the emitter, `delta` after the last time.
    pub fn sample(&mut self, position: Vec3, now: Scalar, delta: Span)
        requires
            old(self).wf(),
            delta.wf(),
        ensures
            final(self).wf(),
            final(self).same_settings(old(self)),
            final(self).sprite == old(self).sprite,
            final(self).tint == old(self).tint,
            final(self).max_points == old(self).max_points,
            final(self).width == old(self).width,
            final(self).max_age == old(self).max_age,
            final(self).timer.period == old(self).timer.period,
            final(self).timer.elapsed.total() == crate::timer::carried(
                old(self).timer.period.total(),
                old(self).timer.reaches(delta),
            ),
            final(self)@ == sampled(
                old(self)@,
                old(self).timer.fires(delta),
                old(self).max_points as int,
                position,
                now,
            ),
    {
        let due = self.timer.tick(delta);
        if due || self.points.len() == 0 {
            self.points.push_back(TrailPoint { position, timestamp: now });
            let ghost grown = self.points@;
            while self.points.len() > self.max_points
                invariant
                    self.same_settings(old(self)),
                    self.timer.wf(),
                    self.timer.period == old(self).timer.period,
                    self.timer.elapsed.total() == crate::timer::carried(
                        old(self).timer.period.total(),
                        old(self).timer.reaches(delta),
                    ),
                    newest(self.points@, self.max_points as int) == newest(
                        grown,
                        self.max_points as int,
                    ),
                decreases self.points@.len(),
            {
                let ghost longer = self.points@;
                self.points.pop_front();
                assert(newest(self.points@, self.max_points as int) =~= newest(
                    longer,
                    self.max_points as int,
                ));
            }
        }
        // The head hugs the emitter between emissions.
        let ghost settled = self.points@;
        if let Some(head) = self.points.pop_back() {
            self.points.push_back(TrailPoint { position, timestamp: head.timestamp });
            assert(self.points@ =~= hugging(settled, position));
        }
    }

    /// Lets the tail eat the points that are too old. `ages` gives the age of
    /// each point, the tail first.
    pub fn expire(&mut self, ages: &Vec<Scalar>)
        requires
            old(self).wf(),
            ages@.len() == old(self)@.len(),
        ensures
            final(self).wf(),
            final(self).same_settings(old(self)),
            final(self).sprite == old(self).sprite,
            final(self).tint == old(self).tint,
            final(self).max_points == old(self).max_points,
            final(self).width == old(self).width,
            final(self).max_age == old(self).max_age,
            final(self).timer == old(self).timer,
            final(self)@ == old(self)@.skip(eaten(ages@, old(self).max_age) as int),
    {
        let mut gone: usize = 0;
        assert(ages@.skip(0) =~= ages@);
        while gone < ages.len() && self.max_age.lt(ages[gone])
            invariant
                gone <= ages@.len(),
                ages@.len() == old(self)@.len(),
                self.same_settings(old(self)),
                self.timer == old(self).timer,
                self.points@ =~= old(self).points@.skip(gone as int),
                eaten(ages@, self.max_age) == gone + eaten(ages@.skip(gone as int), self.max_age),
            decreases ages@.len() - gone,
        {
            self.points.pop_front();
            assert(ages@.skip(gone as int).skip(1) =~= ages@.skip(gone + 1));
            gone = gone + 1;
        }
    }
}

/// A trail within its bound of points stays within it through a frame: sampled,
/// then eaten from the tail.
pub proof fn law_trails_stay_bounded(
    points: Seq<TrailPoint>,
    due: bool,
    max_points: int,
    position: Vec3,
    now: Scalar,
    ages: Seq<Scalar>,
    max_age: Scalar,
)
    requires
        0 <= max_points,
        points.len() <= max_points,
        ages.len() == sampled(points, due, max_points, position, now).len(),
    ensures
        sampled(points, due, max_points, position, now).len() <= max_points,
        sampled(points, due, max_points, position, now).skip(eaten(ages, max_age) as int).len()
            <= max_points,
{
    law_tail_eats_the_old(ages, max_age);
}

/// Whenever a point is added, the bound holds afterwards, even if the trail
/// was over it before.
pub proof fn law_emitting_restores_the_bound(
    points: Seq<TrailPoint>,
    max_points: int,
    position: Vec3,
    now: Scalar,
)
    requires
        0 <= max_points,
    ensures
        sampled(points, true, max_points, position, now).len() <= max_points,
{
}

/// The head of a sampled trail is where the emitter is.
pub proof fn law_head_hugs_the_emitter(
    points: Seq<TrailPoint>,
    due: bool,
    max_points: int,
    position: Vec3,
    now: Scalar,
)
    requires
        0 < max_points,
    ensures
        sampled(points, due, max_points, position, now).len() > 0,
        sampled(points, due, max_points, position, now).last().position == position,
{
}

/// Between emissions nothing but the head's position changes.
pub proof fn law_only_the_head_moves_between_emissions(
    points: Seq<TrailPoint>,
    max_points: int,
    position: Vec3,
    now: Scalar,
)
    requires
        points.len() > 0,
    ensures
        ({
            let after = sampled(points, false, max_points, position, now);
            &&& after.len() == points.len()
            &&& after.drop_last() == points.drop_last()
            &&& after.last().timestamp == points.last().timestamp
        }),
{
    let after = sampled(points, false, max_points, position, now);
    assert(after.drop_last() =~= points.drop_last());
}

/// The tail eats exactly the run of too old points at the front: every point
/// in it is too old, and the first one left is not.
pub proof fn law_tail_eats_the_old(ages: Seq<Scalar>, max_age: Scalar)
    ensures
        eaten(ages, max_age) <= ages.len(),
        forall|i: int| 0 <= i < eaten(ages, max_age) ==> max_age.below(#[trigger] ages[i]),
        eaten(ages, max_age) < ages.len() ==> !max_age.below(
            ages[eaten(ages, max_age) as int],
        ),
    decreases ages.len(),
{
    if ages.len() > 0 && max_age.below(ages[0]) {
        let rest = ages.skip(1);
        law_tail_eats_the_old(rest, max_age);
        assert forall|i: int| 0 <= i < eaten(ages, max_age) implies max_age.below(
            #[trigger] ages[i],
        ) by {
            if i > 0 {
                assert(ages[i] == rest[i - 1]);
            }
        }
    }
}

/// Ages along a trail: no point is older than one nearer to the tail.
pub open spec fn ages_in_order(ages: Seq<Scalar>) -> bool {
    forall|i: int, j: int|
        0 <= i <= j < ages.len() ==> (#[trigger] ages[j]).at_most(#[trigger] ages[i])
}

/// Timestamps along a trail: no point was sampled after one nearer to the head.
pub open spec fn stamps_in_order(points: Seq<TrailPoint>) -> bool {
    forall|i: int, j: int|
        0 <= i <= j < points.len() ==> (#[trigger] points[i]).timestamp.at_most(
            (#[trigger] points[j]).timestamp,
        )
}

/// No point outlives `max_age`: of points that are in order of age, the tail
/// eats exactly those that are too old.
pub proof fn law_no_point_outlives_max_age(ages: Seq<Scalar>, max_age: Scalar)
    requires
        !max_age.nan(),
        ages_in_order(ages),
    ensures
        forall|i: int|
            eaten(ages, max_age) <= i < ages.len() ==> (#[trigger] ages[i]).at_most(max_age),
        forall|i: int|
            0 <= i < ages.len() && (#[trigger] ages[i]).at_most(max_age) ==> eaten(ages, max_age)
                <= i,
{
    let first = eaten(ages, max_age) as int;
    law_tail_eats_the_old(ages, max_age);
    assert forall|i: int| first <= i < ages.len() implies (#[trigger] ages[i]).at_most(
        max_age,
    ) by {
        assert(ages[i].at_most(ages[first]));
        assert(ages[first].at_most(ages[first]));
    }
}

/// Points stay in the order in which they were sampled, through sampling and
/// through losing any number of them at the tail.
pub proof fn law_points_stay_in_order(
    points: Seq<TrailPoint>,
    due: bool,
    max_points: int,
    position: Vec3,
    now: Scalar,
    gone: int,
)
    requires
        0 <= max_points,
        !now.nan(),
        stamps_in_order(points),
        forall|i: int| 0 <= i < points.len() ==> (#[trigger] points[i]).timestamp.at_most(now),
        0 <= gone <= sampled(points, due, max_points, position, now).len(),
    ensures
        stamps_in_order(sampled(points, due, max_points, position, now).skip(gone)),
{
    law_sampling_loses_points_only_to_the_bound(points, due, max_points, position, now);
    let after = sampled(points, due, max_points, position, now);
    let lost = lost_to_the_bound(points, due, max_points);
    assert forall|i: int, j: int| 0 <= i <= j < after.len() implies (
    #[trigger] after[i]).timestamp.at_most((#[trigger] after[j]).timestamp) by {
        if j + lost < points.len() {
            assert(points[i + lost].timestamp.at_most(points[j + lost].timestamp));
        } else if i + lost < points.len() {
            assert(points[i + lost].timestamp.at_most(now));
        }
    }
}

/// Number of points that sampling drops: none, unless a point is added to a
/// trail that then has more than `max_points`.
pub open spec fn lost_to_the_bound(points: Seq<TrailPoint>, due: bool, max_points: int) -> int {
    if (due || points.len() == 0) && points.len() + 1 > max_points {
        points.len() + 1 - max_points
    } else {
        0
    }
}

/// Sampling drops no point but the oldest ones, and those only when a new point
/// takes the trail over its bound; every other point keeps its place and its
/// timestamp, and a new one is stamped with the current time.
pub proof fn law_sampling_loses_points_only_to_the_bound(
    points: Seq<TrailPoint>,
    due: bool,
    max_points: int,
    position: Vec3,
    now: Scalar,
)
    requires
        0 <= max_points,
    ensures
        ({
            let after = sampled(points, due, max_points, position, now);
            let lost = lost_to_the_bound(points, due, max_points);
            let added: int = if due || points.len() == 0 {
                1
            } else {
                0
            };
            &&& after.len() == points.len() + added - lost
            &&& forall|k: int|
                0 <= k < after.len() ==> (#[trigger] after[k]).timestamp == if k + lost
                    < points.len() {
                    points[k + lost].timestamp
                } else {
                    now
                }
            &&& forall|k: int|
                0 <= k < after.len() - 1 ==> (#[trigger] after[k]).position == points[k
                    + lost].position
        }),
{
}

/// A frame of a trail whose points are in order: no point left is too old, what
/// is left is in order and within the bound, and a point that is not too old is
/// lost only to the bound.
pub proof fn law_frame_of_a_trail(
    points: Seq<TrailPoint>,
    due: bool,
    max_points: int,
    position: Vec3,
    now: Scalar,
    ages: Seq<Scalar>,
    max_age: Scalar,
)
    requires
        0 <= max_points,
        !now.nan(),
        !max_age.nan(),
        stamps_in_order(points),
        forall|i: int| 0 <= i < points.len() ==> (#[trigger] points[i]).timestamp.at_most(now),
        ages.len() == sampled(points, due, max_points, position, now).len(),
        ages_in_order(ages),
    ensures
        ({
            let gone = eaten(ages, max_age);
            let lost = lost_to_the_bound(points, due, max_points);
            let after = sampled(points, due, max_points, position, now).skip(gone as int);
            &&& forall|k: int|
                0 <= k < after.len() ==> (#[trigger] ages[gone + k]).at_most(max_age)
            &&& stamps_in_order(after)
            &&& points.len() <= max_points ==> after.len() <= max_points
            &&& forall|i: int|
                #![trigger points[i]]
                lost <= i < points.len() && ages[i - lost].at_most(max_age) ==> gone <= i - lost
                    && after[i - lost - gone].timestamp == points[i].timestamp
        }),
{
    let gone = eaten(ages, max_age) as int;
    let lost = lost_to_the_bound(points, due, max_points);
    let whole = sampled(points, due, max_points, position, now);
    law_tail_eats_the_old(ages, max_age);
    law_no_point_outlives_max_age(ages, max_age);
    law_sampling_loses_points_only_to_the_bound(points, due, max_points, position, now);
    law_points_stay_in_order(points, due, max_points, position, now, gone);
    assert forall|i: int|
        #![trigger points[i]]
        lost <= i < points.len() && ages[i - lost].at_most(max_age) implies gone <= i - lost
        && whole.skip(gone)[i - lost - gone].timestamp == points[i].timestamp by {
        assert(whole[i - lost].timestamp == points[i].timestamp);
    }
}

/// Sampling, point by point. A new point is added when one is due or there is
/// none, at the emitter and the current time, and of all points then the newest
/// stay that the bound allows; otherwise nothing changes but that the head moves
/// to the emitter.
pub proof fn law_sampling_point_by_point(
    points: Seq<TrailPoint>,
    due: bool,
    max_points: int,
    position: Vec3,
    now: Scalar,
)
    requires
        0 <= max_points,
    ensures
        ({
            let after = sampled(points, due, max_points, position, now);
            &&& due || points.len() == 0 ==> {
                &&& after.len() == if points.len() + 1 <= max_points {
                    points.len() + 1int
                } else {
                    max_points
                }
                &&& after.len() > 0 ==> after.last().position == position
                    && after.last().timestamp == now
                &&& forall|k: int|
                    0 <= k < after.len() - 1 ==> #[trigger] after[k] == points[points.len() + 1
                        - after.len() + k]
            }
            &&& !due && points.len() > 0 ==> {
                &&& after.len() == points.len()
                &&& after.last().position == position
                &&& after.last().timestamp == points.last().timestamp
                &&& forall|k: int| 0 <= k < after.len() - 1 ==> #[trigger] after[k] == points[k]
            }
        }),
{
}

/// What the tail leaves, point by point: the rest of the trail from the first
/// point on that is not too old, whatever comes after it.
pub proof fn law_eating_stops_at_the_first_young_point(
    ages: Seq<Scalar>,
    max_age: Scalar,
    first: int,
)
    requires
        0 <= first <= ages.len(),
        forall|i: int| 0 <= i < first ==> max_age.below(#[trigger] ages[i]),
        first < ages.len() ==> !max_age.below(ages[first]),
    ensures
        eaten(ages, max_age) == first,
{
    law_tail_eats_the_old(ages, max_age);
    let gone = eaten(ages, max_age) as int;
    if gone < first {
        assert(max_age.below(ages[gone]));
    }
    if first < gone {
        assert(max_age.below(ages[first]));
    }
}

/// Trails with the same settings agree on every one of them.
pub proof fn law_settings_are_all_of_them(a: Trail, b: Trail)
    ensures
        a.same_settings(&b) <==> {
            &&& a.sprite == b.sprite
            &&& a.tint == b.tint
            &&& a.max_points == b.max_points
            &&& a.width == b.width
            &&& a.max_age == b.max_age
        },
{
}

} // verus!
