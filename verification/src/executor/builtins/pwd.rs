use vstd::prelude::*;
use crate::executor::types::{ExecutionResult, ExecutionResultView, ExecutorError};
use crate::executor::Executor;

verus! {

/// `pwd`: prints the current directory and a newline.
pub fn execute(executor: &Executor) -> (res: Result<ExecutionResult, ExecutorError>)
    ensures
        res is Ok,
        res->Ok_0@ == (ExecutionResultView {
            output: executor.current_dir().push('\n'),
            success: true,
            should_exit: false,
        }),
{
    let mut output = executor.get_current_dir().to_string();
    output.push('\n');
    Ok(ExecutionResult { output, success: true, should_exit: false })
}

} // verus!
