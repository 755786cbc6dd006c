mod access_method_executor;
mod error;
mod plan;
mod result;

pub use access_method_executor::{AccessMethodExecutor, Executor};
pub use error::{ExecutorError, ExecutorErrorView, ExecutorResult};
pub use plan::ExecutionPlan;
pub use result::ExecutionOutput;
