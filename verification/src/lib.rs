//! Verified core of a small game engine: an entity-component store, an
//! asset pool, a stopwatch, integer vectors and the decisions that the
//! renderer takes about memory types, swapchains, samplers and meshes.

pub mod ecs;
pub mod text;
pub mod assets;
pub mod timing;
pub mod math;
pub mod render;
pub mod logging;
