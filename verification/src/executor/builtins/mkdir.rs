use vstd::prelude::*;
use crate::executor::types::{ExecutorError, ExecutorErrorView};

verus! {

/// The error for `mkdir` without a directory.
pub open spec fn missing_argument() -> ExecutorErrorView {
    ExecutorErrorView::InvalidArguments("mkdir: missing directory argument"@)
}

/// Whether `mkdir` accepts `args`: at least one directory has to be named.
pub fn check_arguments(args: &[String]) -> (res: Result<(), ExecutorError>)
    ensures
        args@.len() > 0 ==> res is Ok,
        args@.len() == 0 ==> res is Err && res->Err_0@ == missing_argument(),
{
    if args.len() == 0 {
        return Err(ExecutorError::InvalidArguments("mkdir: missing directory argument".to_string()));
    }
    Ok(())
}

} // verus!
