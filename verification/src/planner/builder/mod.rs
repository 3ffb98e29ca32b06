pub mod graph;
pub mod task;
