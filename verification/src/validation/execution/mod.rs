pub mod contracts;
pub mod error;
pub mod guard;
pub mod types;

pub use contracts::ContractContext;
pub use error::{ExecutionGuardError, ToolError};
pub use guard::GuardContext;
pub use types::ExecutionContractError;
