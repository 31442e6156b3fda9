//! Bookkeeping core of a small GPU renderer: resource stores, shader
//! library resolution, hot-reload propagation and buffer sizing policy.
//! Everything that talks to the GPU or the file system lives outside this
//! crate and hands plain values in and out.

pub mod buffers;
pub mod file_watcher;
pub mod instance_batch;
pub mod laws;
pub mod mesh_rendering;
pub mod renderer_api;
pub mod resource_store;
pub mod scene_node;
pub mod store;
pub mod vertex_layout;
pub mod web_gpu;

use vstd::prelude::*;

verus! {

/// Handle of a camera that can be created next to the primary one.
pub struct CameraId;

} // verus!
