//! The list of live particles.

use bevy_particles_and_trails::{
    FrameCell, Motion, Particle, Particles, Scalar, SpriteAnim, Vec2, Vec3,
};

fn s(x: f32) -> Scalar {
    Scalar::from_bits(x.to_bits())
}

fn v3(x: f32, y: f32, z: f32) -> Vec3 {
    Vec3 { x: s(x), y: s(y), z: s(z) }
}

fn drawn_life(particle: &Particle, age_over_lifetime: f32) -> Scalar {
    particle.billboard(v3(0.0, 0.0, 0.0), s(age_over_lifetime), 0).life
}

fn rest(age: f32) -> Motion {
    Motion { age: s(age), velocity_y: s(-1.0), position: v3(1.0, 2.0, 3.0), rest_height: s(0.5) }
}

#[test]
fn ids_count_up_and_are_not_reused() {
    let mut particles = Particles::default();
    assert_eq!(particles.last_issued(), 0);
    let a = particles.spawn(Particle::default());
    let b = particles.spawn(Particle::default());
    assert_eq!((a.value(), b.value()), (1, 2));
    particles.despawn(b);
    let c = particles.spawn(Particle::default());
    assert_eq!(c.value(), 3);
    assert_ne!(b, c);
    assert_eq!(particles.last_issued(), 3);
}

#[test]
fn despawn_undoes_spawn() {
    let mut particles = Particles::default();
    let a = particles.spawn(Particle { gravity: s(2.0), ..Particle::default() });
    let b = particles.spawn(Particle::default());
    particles.despawn(b);
    assert_eq!(particles.len(), 1);
    assert_eq!(particles.entry(0), (a, Particle { gravity: s(2.0), ..Particle::default() }));
    particles.despawn(b);
    assert_eq!(particles.len(), 1);
    particles.despawn(a);
    assert_eq!(particles.len(), 0);
}

#[test]
fn despawn_keeps_the_order_of_the_others() {
    let mut particles = Particles::default();
    let ids: Vec<_> = (0..5).map(|_| particles.spawn(Particle::default())).collect();
    particles.despawn(ids[2]);
    let left: Vec<_> = (0..particles.len()).map(|i| particles.entry(i).0).collect();
    assert_eq!(left, vec![ids[0], ids[1], ids[3], ids[4]]);
}

#[test]
fn get_mut_reaches_the_live_particle() {
    let mut particles = Particles::default();
    let a = particles.spawn(Particle::default());
    let b = particles.spawn(Particle::default());
    particles.get_mut(b).unwrap().position = v3(7.0, 8.0, 9.0);
    assert_eq!(particles.entry(0).1, Particle::default());
    assert_eq!(particles.entry(1).1.position, v3(7.0, 8.0, 9.0));
    particles.despawn(a);
    assert!(particles.get_mut(a).is_none());
    assert!(particles.get_mut(b).is_some());
}

#[test]
fn update_moves_survivors_and_drops_the_rest() {
    let mut particles = Particles::default();
    let mortal = Particle { lifetime: s(1.0), velocity: v3(4.0, 5.0, 6.0), ..Particle::default() };
    let a = particles.spawn(mortal);
    let _b = particles.spawn(mortal);
    let c = particles.spawn(mortal);
    particles.update(&vec![rest(0.5), rest(1.0), rest(0.75)]);
    assert_eq!(particles.len(), 2);
    let (first, second) = (particles.entry(0), particles.entry(1));
    assert_eq!((first.0, second.0), (a, c));
    assert_eq!(
        first.1,
        Particle {
            age: s(0.5),
            velocity: v3(4.0, -1.0, 6.0),
            position: v3(1.0, 2.0, 3.0),
            ..mortal
        }
    );
    assert_eq!(second.1.age, s(0.75));
}

#[test]
fn looping_particles_stay() {
    let mut particles = Particles::default();
    particles.spawn(Particle::default());
    particles.update(&vec![rest(f32::MAX)]);
    assert_eq!(particles.len(), 1);
}

#[test]
fn a_step_below_ground_ends_on_it() {
    let sunk = Motion { position: v3(1.0, -2.0, 3.0), ..rest(0.5) };
    let after = Particle::default().step(sunk).unwrap();
    assert_eq!(after.position, v3(1.0, 0.5, 3.0));
    let lost = Motion { position: v3(1.0, f32::NAN, 3.0), ..rest(0.5) };
    assert_eq!(Particle::default().step(lost).unwrap().position.y, s(0.5));
    let over = Particle { lifetime: s(0.5), ..Particle::default() };
    assert!(over.step(rest(0.5)).is_none());
}

#[test]
fn life_is_a_fraction_only_of_a_finite_lifetime() {
    let mortal = Particle { lifetime: s(2.0), ..Particle::default() };
    assert_eq!(mortal.life_fraction(s(0.25)), s(0.25));
    assert_eq!(mortal.life_fraction(s(1.5)), s(1.0));
    assert_eq!(mortal.life_fraction(s(-0.5)), s(0.0));
    assert_eq!(drawn_life(&mortal, 1.5), s(1.5));
    let stillborn = Particle { lifetime: s(0.0), ..Particle::default() };
    assert_eq!(drawn_life(&stillborn, f32::NAN), s(0.0));
    assert_eq!(stillborn.life_fraction(s(f32::INFINITY)), s(1.0));
    let forever = Particle::default();
    assert_eq!(forever.life_fraction(s(0.5)), s(0.0));
    assert_eq!(drawn_life(&forever, 0.5), s(0.0));
}

#[test]
fn only_positive_amplitudes_wiggle() {
    assert!(!Particle::default().wiggles());
    assert!(Particle { wiggle_amp: s(0.3), ..Particle::default() }.wiggles());
    assert!(!Particle { wiggle_amp: s(-0.3), ..Particle::default() }.wiggles());
    assert!(!Particle { wiggle_amp: s(f32::NAN), ..Particle::default() }.wiggles());
}

#[test]
fn billboards_are_what_quads_are_computed_from() {
    let particle = Particle {
        sprite: SpriteAnim { frames: 4, columns: 2, fps: s(10.0), ..SpriteAnim::full() },
        position: v3(1.0, 2.0, 3.0),
        size: Vec2 { x: s(4.0), y: s(5.0) },
        rotation: s(0.25),
        lifetime: s(2.0),
        end_scale: s(0.5),
        ..Particle::default()
    };
    let board = particle.billboard(v3(9.0, 9.0, 9.0), s(0.75), 7);
    assert_eq!(board.center, particle.position);
    assert_eq!((board.rotation, board.size), (s(0.25), particle.size));
    assert_eq!((board.end_scale, board.life), (s(0.5), s(0.75)));
    assert_eq!(board.rect, particle.sprite.rect);
    assert_eq!(board.cell, FrameCell { column: 1, row: 1, columns: 2, rows: 2 });
}

#[test]
fn without_amplitude_nothing_wiggles() {
    for amp in [0.0, -0.0] {
        let still = Particle { wiggle_amp: s(amp), ..Particle::default() };
        let faster = Particle { wiggle_freq: s(7.0), ..still };
        assert_eq!(
            still.billboard(v3(1.0, 2.0, 3.0), s(0.5), 3),
            faster.billboard(v3(4.0, 5.0, 6.0), s(0.5), 3)
        );
    }
    let wiggly = Particle { wiggle_amp: s(0.3), ..Particle::default() };
    assert_eq!(wiggly.billboard(v3(1.0, 2.0, 3.0), s(0.5), 3).center, v3(1.0, 2.0, 3.0));
}

#[test]
fn defaults() {
    let particle = Particle::default();
    assert_eq!(particle.sprite, SpriteAnim::full());
    assert_eq!(particle.position, v3(0.0, 0.0, 0.0));
    assert_eq!(particle.velocity, v3(0.0, 0.0, 0.0));
    assert_eq!(particle.size, Vec2 { x: s(1.0), y: s(1.0) });
    assert_eq!(particle.tint.alpha, s(1.0));
    assert_eq!(particle.lifetime, s(f32::INFINITY));
    assert_eq!(particle.end_scale, s(1.0));
    assert_eq!(particle.wiggle_freq, s(1.0));
    assert_eq!((particle.gravity, particle.rotation), (s(0.0), s(0.0)));
    assert_eq!((particle.wiggle_amp, particle.age), (s(0.0), s(0.0)));
}

#[test]
fn one_shot_lives_for_one_playthrough() {
    let sprite = SpriteAnim { frames: 8, fps: s(4.0), ..SpriteAnim::full() };
    let size = Vec2 { x: s(5.0), y: s(5.0) };
    let shot = Particle::one_shot(sprite, v3(1.0, 2.0, 3.0), size, s(2.0));
    assert_eq!(
        shot,
        Particle {
            sprite,
            position: v3(1.0, 2.0, 3.0),
            size,
            lifetime: s(2.0),
            ..Particle::default()
        }
    );
    let still = Particle::one_shot(SpriteAnim::full(), v3(0.0, 0.0, 0.0), size, s(f32::INFINITY));
    assert_eq!(still.lifetime, s(f32::INFINITY));
}
