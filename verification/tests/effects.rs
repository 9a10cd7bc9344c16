//! Whole frames: particles and trails moved, and drawn into the buffer.

use bevy_particles_and_trails::{
    corner_signs, right_vector, trail_direction, FrameCell, FramePlan, FxScratch, LinearRgba, Motion, Particle,
    ParticleId, Particles, ParticlesAndTrailsPlugin, Quad, Rect, Ribbon, RibbonPoint, Scalar, Span,
    SpriteAnim, Trail, Vec2, Vec3,
};

type V3 = [f32; 3];

fn s(x: f32) -> Scalar {
    Scalar::from_bits(x.to_bits())
}

fn f(x: Scalar) -> f32 {
    f32::from_bits(x.bits)
}

fn v2(x: f32, y: f32) -> Vec2 {
    Vec2 { x: s(x), y: s(y) }
}

fn v3(v: V3) -> Vec3 {
    Vec3 { x: s(v[0]), y: s(v[1]), z: s(v[2]) }
}

fn a3(v: Vec3) -> V3 {
    [f(v.x), f(v.y), f(v.z)]
}

fn sub(a: V3, b: V3) -> V3 {
    [a[0] - b[0], a[1] - b[1], a[2] - b[2]]
}

fn cross(a: V3, b: V3) -> V3 {
    [
        a[1] * b[2] - a[2] * b[1],
        a[2] * b[0] - a[0] * b[2],
        a[0] * b[1] - a[1] * b[0],
    ]
}

fn normalize_or_zero(a: V3) -> V3 {
    let length = (a[0] * a[0] + a[1] * a[1] + a[2] * a[2]).sqrt();
    if length > 0.0 {
        [a[0] / length, a[1] / length, a[2] / length]
    } else {
        [0.0; 3]
    }
}

fn ticks(sprite: &SpriteAnim, age: f32) -> u32 {
    (age * f(sprite.fps)) as u32
}

fn cell_rect(rect: Rect, cell: FrameCell) -> Rect {
    let w = (f(rect.max.x) - f(rect.min.x)) / cell.columns as f32;
    let h = (f(rect.max.y) - f(rect.min.y)) / cell.rows as f32;
    let x = f(rect.min.x) + w * cell.column as f32;
    let y = f(rect.min.y) + h * cell.row as f32;
    Rect { min: v2(x, y), max: v2(x + w, y + h) }
}

fn frame_rect(sprite: &SpriteAnim, age: f32) -> Rect {
    cell_rect(sprite.rect, sprite.frame_cell(ticks(sprite, age)))
}

fn motion(particle: &Particle, dt: f32) -> Motion {
    let age = f(particle.age) + dt;
    let velocity_y = f(particle.velocity.y) - f(particle.gravity) * dt;
    let fraction = f(particle.life_fraction(s(age / f(particle.lifetime))));
    let scale = 1.0 + (f(particle.end_scale) - 1.0) * fraction;
    Motion {
        age: s(age),
        velocity_y: s(velocity_y),
        position: v3([
            f(particle.position.x) + f(particle.velocity.x) * dt,
            f(particle.position.y) + velocity_y * dt,
            f(particle.position.z) + f(particle.velocity.z) * dt,
        ]),
        rest_height: s(f(particle.size.y) * scale * 0.5),
    }
}

/// Billboard facing a camera without rotation: its axes are world X and Y.
fn quad(particle: &Particle) -> Quad {
    let age = f(particle.age);
    let board = particle.billboard(
        particle.position,
        s(age / f(particle.lifetime)),
        ticks(&particle.sprite, age),
    );
    let scale = 0.5 * (1.0 + (f(board.end_scale) - 1.0) * f(board.life));
    let mut corners = [v3([0.0; 3]); 4];
    for k in 0..4 {
        let signs = corner_signs(k);
        corners[k] = v3([
            f(board.center.x) + f(board.size.x) * scale * f(signs.x),
            f(board.center.y) + f(board.size.y) * scale * f(signs.y),
            f(board.center.z),
        ]);
    }
    Quad { corners, uv: cell_rect(board.rect, board.cell) }
}

fn ribbon(trail: &Trail, camera: V3, now: f32) -> Ribbon {
    let n = trail.len();
    let uv = frame_rect(&trail.sprite, now);
    let at = |i: usize| a3(trail.point(i).position);
    let points = (0..n)
        .map(|i| {
            let tangent = trail_direction(n, i);
            let mut sum = [0.0; 3];
            for segment in [tangent.incoming, tangent.outgoing].into_iter().flatten() {
                let d = sub(at(segment.to), at(segment.from));
                sum = [sum[0] + d[0], sum[1] + d[1], sum[2] + d[2]];
            }
            let dir = normalize_or_zero(sum);
            let to_camera = normalize_or_zero(sub(camera, at(i)));
            let right = a3(right_vector(
                v3(normalize_or_zero(cross(dir, to_camera))),
                s(dir[1]),
                v3(normalize_or_zero(cross(dir, [0.0, 1.0, 0.0]))),
                v3(normalize_or_zero(cross(dir, [1.0, 0.0, 0.0]))),
            ));
            let progress = i as f32 / (n - 1) as f32;
            let width = f(trail.width) * 0.5 * progress;
            let edge = |side: f32| {
                let p = at(i);
                v3([
                    p[0] + right[0] * width * side,
                    p[1] + right[1] * width * side,
                    p[2] + right[2] * width * side,
                ])
            };
            let (u0, u1) = (f(uv.min.x), f(uv.max.x));
            RibbonPoint { left: edge(-1.0), right: edge(1.0), u: s(u0 + (u1 - u0) * progress) }
        })
        .collect();
    Ribbon { points, uv }
}

/// A world with one camera at (0, 0, 10).
struct World {
    particles: Particles,
    trails: Vec<(Trail, V3)>,
    scratch: FxScratch,
    plan: FramePlan,
    camera: bool,
    now: f32,
}

impl World {
    fn new() -> World {
        let plugin = ParticlesAndTrailsPlugin { capacity: 16, atlas: "atlas.png".to_string() };
        World {
            particles: Particles::default(),
            trails: Vec::new(),
            scratch: plugin.scratch(),
            plan: FramePlan::default(),
            camera: true,
            now: 0.0,
        }
    }

    fn update(&mut self, millis: u32) {
        let dt = millis as f32 / 1000.0;
        self.now += dt;
        let motions: Vec<Motion> =
            (0..self.particles.len()).map(|i| motion(&self.particles.entry(i).1, dt)).collect();
        self.particles.update(&motions);
        for (trail, position) in &mut self.trails {
            trail.sample(v3(*position), s(self.now), Span { secs: 0, nanos: millis * 1_000_000 });
            let ages: Vec<Scalar> =
                (0..trail.len()).map(|i| s(self.now - f(trail.point(i).timestamp))).collect();
            trail.expire(&ages);
        }
        let trails: Vec<&Trail> = self.trails.iter().map(|(trail, _)| trail).collect();
        let live = self.particles.len();
        self.scratch.plan(self.camera, &trails, live, &mut self.plan);
        let ribbons: Vec<Ribbon> = trails
            .iter()
            .zip(&self.plan.trails)
            .map(|(trail, drawn)| {
                if *drawn {
                    ribbon(trail, [0.0, 0.0, 10.0], self.now)
                } else {
                    Ribbon { points: Vec::new(), uv: trail.sprite.rect }
                }
            })
            .collect();
        let quads: Vec<Quad> =
            (0..self.plan.particles).map(|k| quad(&self.particles.entry(live - 1 - k).1)).collect();
        self.scratch.rebuild(self.camera, &trails, &ribbons, &self.particles, &quads);
    }

    fn scratch_data(&self) -> (Vec<V3>, Vec<[f32; 2]>, Vec<u32>) {
        (
            self.scratch.vertices.iter().map(|v| a3(v.position)).collect(),
            self.scratch.vertices.iter().map(|v| [f(v.uv.x), f(v.uv.y)]).collect(),
            self.scratch.indices.clone(),
        )
    }
}

fn at_x(x: f32) -> Particle {
    Particle { position: v3([x, 0.0, 0.0]), ..Particle::default() }
}

#[test]
fn particle_lives_in_the_buffer_and_despawns() {
    let mut world = World::new();
    let sprite = SpriteAnim {
        rect: Rect { min: v2(0.0, 0.0), max: v2(1.0, 1.0) },
        frames: 4,
        columns: 2,
        fps: s(10.0),
    };
    let id: ParticleId = world.particles.spawn(Particle {
        sprite,
        position: v3([1.0, 2.0, 3.0]),
        size: v2(2.0, 4.0),
        ..Particle::default()
    });
    world.update(0);

    let (positions, uvs, indices) = world.scratch_data();
    assert_eq!(indices, vec![0, 1, 2, 0, 2, 3]);
    assert_eq!(positions[0], [0.0, 0.0, 3.0], "bottom-left corner");
    assert_eq!(positions[2], [2.0, 4.0, 3.0], "top-right corner");
    // Frame 0 of a 2x2 grid over the full atlas is the top-left cell.
    for uv in &uvs[..4] {
        assert!(uv[0] <= 0.5 && uv[1] <= 0.5, "frame 0 uv, got {uv:?}");
    }

    world.particles.despawn(id);
    world.update(0);
    assert!(world.scratch_data().2.is_empty(), "despawned particle still drawn");
}

#[test]
fn trail_ribbon_emits_quads() {
    let mut world = World::new();
    let millisecond = Span { secs: 0, nanos: 1_000_000 };
    world.trails.push((Trail::new(SpriteAnim::full(), 8, millisecond, s(0.5)), [0.0, 1.0, 0.0]));
    world.update(0);
    world.update(5);
    let (_, _, indices) = world.scratch_data();
    assert!(indices.len() >= 6, "expected a ribbon, got {} indices", indices.len());
}

#[test]
fn overflow_drops_oldest_particles() {
    let mut world = World::new(); // capacity 16 = 4 quads
    for i in 0..6 {
        world.particles.spawn(at_x(i as f32));
    }
    world.update(0);
    let (positions, _, indices) = world.scratch_data();
    assert_eq!(indices.len(), 4 * 6, "four quads fit");
    assert_eq!(positions[0][0], 5.0 - 0.5, "newest particle wins a slot");
}

#[test]
fn exactly_the_newest_are_drawn_in_order() {
    let mut world = World::new();
    for i in 0..6 {
        world.particles.spawn(at_x(i as f32));
    }
    world.update(0);
    let (positions, _, _) = world.scratch_data();
    let left: Vec<f32> = positions.iter().step_by(4).map(|p| p[0]).collect();
    assert_eq!(left, vec![4.5, 3.5, 2.5, 1.5]);
}

#[test]
fn one_more_particle_evicts_the_oldest_drawn() {
    let mut world = World::new();
    for i in 0..4 {
        world.particles.spawn(at_x(i as f32));
    }
    world.update(0);
    let before = world.scratch_data().0;
    world.particles.spawn(at_x(9.0));
    world.update(0);
    let after = world.scratch_data().0;
    assert_eq!(after.len(), before.len());
    assert_eq!(after[0][0], 8.5);
    assert_eq!(after[4..], before[..12]);
}

#[test]
fn trails_win_over_particles() {
    let mut world = World::new();
    let millisecond = Span { secs: 0, nanos: 1_000_000 };
    world.trails.push((Trail::new(SpriteAnim::full(), 7, millisecond, s(1.0)), [0.0, 1.0, 0.0]));
    for _ in 0..10 {
        world.update(2);
    }
    let bare = world.scratch_data();
    assert_eq!(bare.0.len(), 14);
    assert_eq!(bare.2.len(), 36);
    for i in 0..6 {
        world.particles.spawn(at_x(i as f32));
    }
    world.update(0);
    // Two vertices are left: no room for a quad.
    assert_eq!(world.scratch_data(), bare);
}

#[test]
fn a_trail_that_does_not_fit_leaves_its_room() {
    let mut world = World::new();
    let millisecond = Span { secs: 0, nanos: 1_000_000 };
    for max_points in [9, 2] {
        world
            .trails
            .push((Trail::new(SpriteAnim::full(), max_points, millisecond, s(1.0)), [0.0; 3]));
    }
    for _ in 0..12 {
        world.update(2);
    }
    for i in 0..6 {
        world.particles.spawn(at_x(i as f32));
    }
    world.update(0);
    // Nine points need 18 vertices; the two-point trail and three quads fit.
    let (_, _, indices) = world.scratch_data();
    assert_eq!(world.scratch.vertices.len(), 4 + 3 * 4);
    assert_eq!(indices.len(), 6 + 3 * 6);
    assert_eq!(indices[..6], [0, 1, 2, 1, 3, 2]);
    assert_eq!(indices[6..12], [4, 5, 6, 4, 6, 7]);
}

#[test]
fn a_lone_point_is_not_a_ribbon() {
    let mut world = World::new();
    let second = Span { secs: 1, nanos: 0 };
    world.trails.push((Trail::new(SpriteAnim::full(), 8, second, s(1.0)), [0.0; 3]));
    world.update(1);
    world.update(1);
    assert_eq!(world.trails[0].0.len(), 1);
    assert!(world.scratch_data().2.is_empty());
}

#[test]
fn nothing_is_drawn_without_a_camera() {
    let mut world = World::new();
    world.particles.spawn(at_x(0.0));
    world.update(0);
    assert_eq!(world.scratch.vertices.len(), 4);
    world.camera = false;
    world.update(0);
    assert!(world.scratch.vertices.is_empty());
    assert!(world.scratch.indices.is_empty());
}

#[test]
fn geometry_of_what_is_not_drawn_does_not_matter() {
    let mut world = World::new();
    let millisecond = Span { secs: 0, nanos: 1_000_000 };
    for max_points in [9, 2] {
        world
            .trails
            .push((Trail::new(SpriteAnim::full(), max_points, millisecond, s(1.0)), [0.0; 3]));
    }
    for i in 0..6 {
        world.particles.spawn(at_x(i as f32));
    }
    for _ in 0..12 {
        world.update(2);
    }
    let planned = (world.scratch.vertices.clone(), world.scratch.indices.clone());
    let trails: Vec<&Trail> = world.trails.iter().map(|(trail, _)| trail).collect();
    let mut plan = FramePlan { trails: vec![true; 7], particles: 99 };
    world.scratch.plan(true, &trails, 6, &mut plan);
    assert_eq!(plan.trails, vec![false, true]);
    assert_eq!(plan.particles, 3);
    world.scratch.plan(false, &trails, 6, &mut plan);
    assert_eq!((plan.trails, plan.particles), (vec![false, false], 0));
    let ribbons: Vec<Ribbon> =
        trails.iter().map(|trail| ribbon(trail, [0.0, 0.0, 10.0], world.now)).collect();
    let quads: Vec<Quad> = (0..6).rev().map(|i| quad(&world.particles.entry(i).1)).collect();
    world.scratch.rebuild(true, &trails, &ribbons, &world.particles, &quads);
    assert_eq!((world.scratch.vertices.clone(), world.scratch.indices.clone()), planned);
}

#[test]
fn ribbon_segments_share_their_vertices() {
    let mut scratch = FxScratch::with_capacity(100);
    let millisecond = Span { secs: 0, nanos: 1_000_000 };
    let mut trail = Trail::new(SpriteAnim::full(), 3, millisecond, s(1.0));
    for i in 0..3 {
        trail.sample(v3([i as f32, 0.0, 0.0]), s(i as f32), millisecond);
    }
    trail.tint = LinearRgba { red: s(0.25), green: s(0.5), blue: s(0.75), alpha: s(1.0) };
    let point = |i: usize| RibbonPoint {
        left: v3([i as f32, -1.0, 0.0]),
        right: v3([i as f32, 1.0, 0.0]),
        u: s(i as f32 / 2.0),
    };
    let uv = Rect { min: v2(0.0, 0.25), max: v2(1.0, 0.75) };
    let ribbon = Ribbon { points: vec![point(0), point(1), point(2)], uv };
    scratch.emit_trail(&trail, &ribbon);
    scratch.emit_trail(&trail, &ribbon);
    assert_eq!(scratch.vertices.len(), 12);
    assert_eq!(
        scratch.indices,
        vec![0, 1, 2, 1, 3, 2, 2, 3, 4, 3, 5, 4, 6, 7, 8, 7, 9, 8, 8, 9, 10, 9, 11, 10]
    );
    let vertex = scratch.vertices[8 + 1];
    assert_eq!(a3(vertex.position), [1.0, 1.0, 0.0]);
    assert_eq!([f(vertex.uv.x), f(vertex.uv.y)], [0.5, 0.75]);
    assert_eq!(vertex.color, trail.tint);
}

#[test]
fn quad_corners_take_their_corner_of_the_sprite() {
    let mut scratch = FxScratch::with_capacity(4);
    let mut particle = Particle::default();
    particle.tint.green = s(0.5);
    let uv = Rect { min: v2(0.25, 0.5), max: v2(0.5, 1.0) };
    let corners = [
        v3([1.0, 0.0, 0.0]),
        v3([2.0, 0.0, 0.0]),
        v3([3.0, 0.0, 0.0]),
        v3([4.0, 0.0, 0.0]),
    ];
    scratch.emit_particle(&particle, &Quad { corners, uv });
    let uvs: Vec<[f32; 2]> = scratch.vertices.iter().map(|v| [f(v.uv.x), f(v.uv.y)]).collect();
    assert_eq!(uvs, vec![[0.25, 1.0], [0.5, 1.0], [0.5, 0.5], [0.25, 0.5]]);
    for (k, vertex) in scratch.vertices.iter().enumerate() {
        assert_eq!(f(vertex.position.x), k as f32 + 1.0);
        assert_eq!(vertex.color, particle.tint);
    }
    let copy = scratch.clone();
    assert_eq!(copy.vertices, scratch.vertices);
    assert_eq!(copy.indices, scratch.indices);
    assert_eq!(copy.vertex_capacity, 4);
}

#[test]
fn sinking_particles_come_to_rest_on_the_ground() {
    let mut world = World::new();
    world.particles.spawn(Particle {
        position: v3([0.0, 1.0, 0.0]),
        gravity: s(10.0),
        size: v2(1.0, 0.5),
        ..Particle::default()
    });
    for _ in 0..10 {
        world.update(500);
        assert!(f(world.particles.entry(0).1.position.y) >= 0.25);
    }
    assert_eq!(f(world.particles.entry(0).1.position.y), 0.25);
}

#[test]
fn one_shot_plays_once_and_leaves() {
    let mut world = World::new();
    let sprite = SpriteAnim { frames: 4, columns: 2, fps: s(10.0), ..SpriteAnim::full() };
    world.particles.spawn(Particle::one_shot(sprite, v3([0.0; 3]), v2(1.0, 1.0), s(4.0 / 10.0)));
    for frame in 0..4 {
        let rect = frame_rect(&sprite, f(world.particles.entry(0).1.age) + 0.01);
        assert_eq!(f(rect.min.x), if frame % 2 == 0 { 0.0 } else { 0.5 });
        assert_eq!(f(rect.min.y), if frame < 2 { 0.0 } else { 0.5 });
        assert_eq!(world.particles.len(), 1);
        world.update(100);
    }
    world.update(1);
    assert_eq!(world.particles.len(), 0);
}
