//! Points of trails, and the shape of ribbons.

use bevy_particles_and_trails::{
    right_vector, trail_direction, EmitTimer, Scalar, Segment, Span, SpriteAnim, Trail, TrailPoint,
    Vec3,
};

fn s(x: f32) -> Scalar {
    Scalar::from_bits(x.to_bits())
}

fn v3(x: f32, y: f32, z: f32) -> Vec3 {
    Vec3 { x: s(x), y: s(y), z: s(z) }
}

fn millis(n: u32) -> Span {
    Span { secs: 0, nanos: n * 1_000_000 }
}

fn points(trail: &Trail) -> Vec<TrailPoint> {
    (0..trail.len()).map(|i| trail.point(i)).collect()
}

fn at(x: f32, timestamp: f32) -> TrailPoint {
    TrailPoint { position: v3(x, 0.0, 0.0), timestamp: s(timestamp) }
}

#[test]
fn settings_of_a_new_trail() {
    let sprite = SpriteAnim { frames: 3, ..SpriteAnim::full() };
    let trail = Trail::new(sprite, 64, millis(20), s(0.35));
    assert_eq!(trail.sprite, sprite);
    assert_eq!(trail.max_points, 64);
    assert_eq!(trail.width, s(0.35));
    assert_eq!(trail.max_age, s(5.0));
    assert_eq!(trail.tint.red, s(1.0));
    assert_eq!(trail.len(), 0);
    let trail = trail.with_max_age(s(0.7));
    assert_eq!(trail.max_age, s(0.7));
    assert_eq!(trail.max_points, 64);
}

#[test]
fn the_first_sample_makes_a_point() {
    let mut trail = Trail::new(SpriteAnim::full(), 8, millis(20), s(1.0));
    trail.sample(v3(1.0, 0.0, 0.0), s(0.5), millis(0));
    assert_eq!(points(&trail), vec![at(1.0, 0.5)]);
}

#[test]
fn the_head_hugs_the_emitter_between_emissions() {
    let mut trail = Trail::new(SpriteAnim::full(), 8, millis(20), s(1.0));
    trail.sample(v3(1.0, 0.0, 0.0), s(0.0), millis(0));
    trail.sample(v3(2.0, 0.0, 0.0), s(0.02), millis(20));
    trail.sample(v3(3.0, 0.0, 0.0), s(0.03), millis(10));
    assert_eq!(points(&trail), vec![at(1.0, 0.0), at(3.0, 0.02)]);
    trail.sample(v3(4.0, 0.0, 0.0), s(0.04), millis(10));
    assert_eq!(points(&trail), vec![at(1.0, 0.0), at(3.0, 0.02), at(4.0, 0.04)]);
}

#[test]
fn the_oldest_points_make_room() {
    let mut trail = Trail::new(SpriteAnim::full(), 3, millis(1), s(1.0));
    for i in 0..6 {
        trail.sample(v3(i as f32, 0.0, 0.0), s(i as f32), millis(1));
        assert!(trail.len() <= 3);
    }
    assert_eq!(points(&trail), vec![at(3.0, 3.0), at(4.0, 4.0), at(5.0, 5.0)]);
    trail.max_points = 1;
    trail.sample(v3(6.0, 0.0, 0.0), s(6.0), millis(1));
    assert_eq!(points(&trail), vec![at(6.0, 6.0)]);
}

#[test]
fn a_trail_without_room_stays_empty() {
    let mut trail = Trail::new(SpriteAnim::full(), 0, millis(1), s(1.0));
    trail.sample(v3(1.0, 0.0, 0.0), s(0.0), millis(1));
    assert_eq!(trail.len(), 0);
}

#[test]
fn the_tail_eats_old_points() {
    let mut trail = Trail::new(SpriteAnim::full(), 8, millis(1), s(1.0)).with_max_age(s(2.0));
    for i in 0..5 {
        trail.sample(v3(i as f32, 0.0, 0.0), s(i as f32), millis(1));
    }
    // A point of exactly the maximal age stays, and shields those behind it.
    trail.expire(&vec![s(4.0), s(3.0), s(2.0), s(9.0), s(0.0)]);
    assert_eq!(points(&trail), vec![at(2.0, 2.0), at(3.0, 3.0), at(4.0, 4.0)]);
    trail.expire(&vec![s(f32::NAN), s(9.0), s(9.0)]);
    assert_eq!(trail.len(), 3);
    trail.expire(&vec![s(9.0), s(9.0), s(9.0)]);
    assert_eq!(trail.len(), 0);
}

#[test]
fn no_point_outlives_its_age() {
    let mut trail = Trail::new(SpriteAnim::full(), 4, millis(1), s(1.0)).with_max_age(s(2.0));
    for now in 0..9 {
        let now = now as f32;
        trail.sample(v3(now, 0.0, 0.0), s(now), millis(1));
        let ages = |trail: &Trail| -> Vec<f32> {
            points(trail).iter().map(|p| now - f32::from_bits(p.timestamp.bits)).collect()
        };
        let before = ages(&trail);
        trail.expire(&before.iter().map(|age| s(*age)).collect());
        let kept: Vec<f32> = before.into_iter().filter(|age| *age <= 2.0).collect();
        assert_eq!(ages(&trail), kept);
        assert!(kept.windows(2).all(|pair| pair[0] >= pair[1]));
    }
    assert_eq!(trail.len(), 3);
}

#[test]
fn the_timer_fires_once_per_period() {
    let mut timer = EmitTimer::new(millis(20));
    assert!(!timer.tick(millis(15)));
    assert_eq!(timer.elapsed, millis(15));
    assert!(timer.tick(millis(15)));
    assert_eq!(timer.elapsed, millis(10));
    assert!(!timer.tick(millis(9)));
    assert!(timer.tick(millis(1)));
    assert_eq!(timer.elapsed, millis(0));
    assert!(timer.tick(Span { secs: 3, nanos: 5_000_000 }));
    assert_eq!(timer.elapsed, millis(5));
    assert_eq!(timer.period, millis(20));
}

#[test]
fn a_timer_without_period_always_fires() {
    let mut timer = EmitTimer::new(millis(0));
    assert!(timer.tick(millis(0)));
    assert!(timer.tick(millis(7)));
    assert_eq!(timer.elapsed, millis(0));
}

#[test]
fn a_timer_stops_at_the_longest_time() {
    let longest = Span { secs: u64::MAX, nanos: 999_999_999 };
    let mut timer = EmitTimer { period: longest, elapsed: longest };
    assert!(timer.tick(millis(1)));
    assert_eq!(timer.elapsed, millis(0));
}

#[test]
fn a_count_of_periods_that_wraps_is_lost() {
    let mut timer = EmitTimer::new(Span { secs: 0, nanos: 1 });
    assert!(!timer.tick(Span { secs: 4, nanos: 294_967_296 }));
    assert!(timer.tick(Span { secs: 4, nanos: 294_967_297 }));
}

#[test]
fn remainders_are_kept_in_64_bits_of_nanoseconds() {
    let mut timer = EmitTimer::new(Span { secs: 20_000_000_000, nanos: 0 });
    assert!(timer.tick(Span { secs: 38_500_000_000, nanos: 0 }));
    // 18.5e18 ns are left, which is 2^64 plus this many.
    assert_eq!(timer.elapsed, Span { secs: 53_255_926, nanos: 290_448_384 });
}

#[test]
fn directions_come_from_the_segments_at_a_point() {
    let seg = |from: usize, to: usize| Some(Segment { from, to });
    let first = trail_direction(4, 0);
    assert_eq!((first.incoming, first.outgoing), (None, seg(0, 1)));
    let middle = trail_direction(4, 2);
    assert_eq!((middle.incoming, middle.outgoing), (seg(1, 2), seg(2, 3)));
    let last = trail_direction(4, 3);
    assert_eq!((last.incoming, last.outgoing), (seg(2, 3), None));
    let short = trail_direction(2, 1);
    assert_eq!((short.incoming, short.outgoing), (seg(0, 1), None));
}

#[test]
fn a_ribbon_always_has_a_side() {
    let zero = v3(0.0, -0.0, 0.0);
    let (a, b, c) = (v3(0.0, 1.0, 0.0), v3(0.0, 0.0, 1.0), v3(0.0, 0.0, -1.0));
    assert_eq!(right_vector(a, s(0.0), b, c), a);
    assert_eq!(right_vector(zero, s(0.0), b, c), b);
    assert_eq!(right_vector(zero, s(-0.89), b, c), b);
    assert_eq!(right_vector(zero, s(0.9), b, c), c);
    assert_eq!(right_vector(zero, s(-1.0), b, c), c);
    assert_eq!(right_vector(zero, s(f32::NAN), b, c), c);
    assert_eq!(right_vector(zero, s(0.0), zero, c), v3(1.0, 0.0, 0.0));
    assert_eq!(right_vector(zero, s(1.0), b, zero), v3(1.0, 0.0, 0.0));
}
