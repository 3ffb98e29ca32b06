pub mod class;
pub mod intent;
