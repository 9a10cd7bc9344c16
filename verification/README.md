# bevy_particles_and_trails

Every billboard particle and every ribbon trail in one draw call: a fixed
particle budget, no per-particle entities, GPU buffers made once.

- `src/` is the verified library. It decides which particles and trail points
  live, which frame of a sprite plays, which trails and particles are drawn when
  the buffer is full, what vertices and indices the buffer then holds, and what
  the render side does with them. Floating point numbers pass through it as bit
  patterns; it compares them and never computes with them.
- `app/` is the bevy plugin: the ECS systems, the arithmetic of motion and shape,
  and the GPU resources.
- `tests/` runs the library.

What the library keeps, proved in `src/`:

- The budget: a frame never holds more vertices than the capacity, and its
  indices fit the room reserved for them, so the GPU buffers are never made
  again (`frame`, `pipeline`).
- On overflow trails win and the oldest particles drop (`frame`).
- Ids are never reused; despawning takes exactly the named particle; a frame
  removes exactly the particles whose life is over (`particles`).
- Trails stay within their number of points, their head hugs the emitter,
  and they keep the order in which they were sampled. Of points in order of age,
  the tail eats exactly those that are too old, so no point left outlives the
  maximal age (`trail`).
- Whatever earlier frames left, queueing leaves a view with exactly one draw of
  ours when there is something to draw and the view's pipeline could be made, and
  with none otherwise; the draws of others stay (`pipeline`).
- Sprites are grids of equal cells read left-to-right then top-to-bottom, and
  loop (`sprite`).

Trusted, and not proved: the ticking of bevy's `Timer` (`timer`), and the
contents and use of bevy's `RawBufferVec` (`gpu`).
