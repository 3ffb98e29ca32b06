pub mod classifier;
pub mod kind;
pub mod registry;
