//! Engine data structures: instances, animations and the scene graph.

pub mod animation;
pub mod instance;
pub mod scene_graph;
