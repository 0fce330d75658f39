//! Verified bookkeeping core of a progressive path tracer.
//!
//! The numeric light-transport code lives with the application; this crate
//! holds the discrete rules around it: the window state, the resource
//! tables, the scene's primitive list with its nearest-hit and occlusion
//! queries, the split of a frame's pixels among the workers, and the
//! accumulation counter.

pub mod application;
pub mod material;
pub mod model;
pub mod random;
pub mod render;
pub mod resource_manager;
pub mod scene;
