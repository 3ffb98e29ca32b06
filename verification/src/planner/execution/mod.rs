pub mod graph;
pub mod steps;
