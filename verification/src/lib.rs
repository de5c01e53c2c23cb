//! Verified core of the Fyrox wgpu graphics backend.
use vstd::prelude::*;

pub mod metrics;
pub mod text;
pub mod render_pass;
pub mod gpu;
pub mod uniform_pool;
pub mod pipeline;
pub mod pipeline_cache;
pub mod color_space;
pub mod bind_group_cache;
pub mod server;
pub mod framebuffer;
pub mod geometry_buffer;
pub mod program;
pub mod glsl;
pub mod shader;
pub mod shader_lint;
