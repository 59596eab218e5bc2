//! Scene-graph instancing and object-picking core of a real-time rendering
//! engine.
//!
//! The crate holds the parts of the engine that carry invariants:
//!
//! - `data_structures::instance`: the transform value attached to one copy of a mesh
//! - `data_structures::animation`: merging single-channel clips into keyframe transforms
//! - `data_structures::scene_graph`: the node tree, world-transform propagation and
//!   the bookkeeping that keeps instance arrays and GPU buffers in step
//! - `gpu`: handles for GPU resources and the buffer traffic to carry out
//! - `render`: drawable descriptors and the per-frame render description
//! - `pick`: resolving an id read back from the pick target to its owners
//! - `context`: pointer state
//!
//! Scalars are carried as IEEE-754 bit patterns. Arithmetic on them, GPU work and
//! windowing are left to the caller; the functions here take them as arguments.
pub mod context;
pub mod data_structures;
pub mod gpu;
pub mod pick;
pub mod render;
mod util;

pub use data_structures::instance::Instance;
