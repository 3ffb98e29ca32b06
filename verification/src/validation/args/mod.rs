pub mod runtime;
pub mod types;
pub mod validate;

pub use runtime::RuntimeError;
pub use types::ArgValidationError;
pub use validate::validate_args;
