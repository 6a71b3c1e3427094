use vstd::prelude::*;
use crate::executor::types::{ExecutionResult, ExecutionResultView, ExecutorError};

verus! {

/// What `exit` yields: no output, success, and the request to end.
pub open spec fn exit_result() -> ExecutionResultView {
    ExecutionResultView { output: Seq::empty(), success: true, should_exit: true }
}

/// `exit`: asks the interpreter to end.
pub fn execute() -> (res: Result<ExecutionResult, ExecutorError>)
    ensures
        res is Ok,
        res->Ok_0@ == exit_result(),
{
    Ok(ExecutionResult { output: String::new(), success: true, should_exit: true })
}

} // verus!
