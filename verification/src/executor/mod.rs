//! Evaluation: the control flow of a command tree over the named
//! operations.

pub mod types;
pub mod builtins;
pub mod state;
pub mod semantics;
pub mod evaluator;
pub mod laws;

pub use types::{ExecutionResult, ExecutionResultView, ExecutorError, ExecutorErrorView};
pub use state::Executor;
pub use evaluator::Step;
pub use semantics::StepView;
pub use builtins::Builtin;
