//! Every billboard particle and ribbon trail in one buffer of fixed size: one
//! atlas texture, one draw call.
//!
//! This crate holds the rules: which particles and points live, which of them
//! are drawn when the buffer is full, what the buffer then contains, and what
//! is done with it on the render side. Numbers are carried as bit patterns (see
//! [`Scalar`]); their arithmetic is left to the caller.

pub mod frame;
pub mod gpu;
pub mod particles;
pub mod pipeline;
pub mod plugin;
pub mod ribbon;
pub mod scalar;
pub mod scratch;
pub mod sprite;
pub mod timer;
pub mod trail;

pub use frame::{Frame, FxVertex, Quad, Ribbon, RibbonPoint};
pub use gpu::{BufferUse, FxGpuBuffers, IndexBuffer, VertexBuffer};
pub use particles::{Billboard, Motion, Particle, ParticleId, Particles};
pub use pipeline::{
    bind_group_slots, bind_group_step, buffers_step, draw_step, drawable, fixed_state, queue_step,
    specialize, vertex_layout, Attribute, BindMatch, BindStep, BindingSlot, BufferStep, DepthTest,
    DrawStep, FixedState, FxKey, Msaa, PhaseEntry, PipelineDraft, QueueAction, QueueEvent, QueueState, Resource,
    Stage, VertexLayout,
};
pub use plugin::ParticlesAndTrailsPlugin;
pub use ribbon::{right_vector, trail_direction, Segment, Tangent};
pub use scalar::{LinearRgba, Rect, Scalar, Vec2, Vec3};
pub use scratch::{corner_signs, FramePlan, FxScratch};
pub use sprite::{FrameCell, SpriteAnim};
pub use timer::{EmitTimer, Span};
pub use trail::{Trail, TrailPoint};
