pub mod args;
pub mod content;
pub mod execution;
pub mod filesystem;
pub mod intent;
pub mod semantic;
pub mod traits;
pub mod utils;

pub use args::{validate_args, ArgValidationError, RuntimeError};
pub use content::{Transform, TransformCheck, TransformContext};
pub use execution::{ContractContext, ExecutionContractError, ExecutionGuardError, GuardContext, ToolError};
pub use intent::{validate_intent, IntentValidationError, ValidatedIntent};
pub use semantic::SemanticContext;
pub use filesystem::{FsRequirement, ResolveError};
pub use traits::Validate;
pub use utils::{check, FileSystemState, FsSnapshot};
