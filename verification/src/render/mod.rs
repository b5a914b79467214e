//! The renderer's decisions over plain values: index buffers, memory types,
//! swapchain set-up, queue families, formats, samplers, mipmaps and the
//! grouping of meshes into pipelines.

pub mod indices;
pub mod memory;
pub mod swapchain;
pub mod device;
pub mod sampler;
pub mod pipeline;
pub mod texture;
