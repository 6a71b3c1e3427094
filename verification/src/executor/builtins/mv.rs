use vstd::prelude::*;
use crate::executor::types::{ExecutorError, ExecutorErrorView};

verus! {

/// The error for `mv` with another number of arguments than two.
pub open spec fn usage() -> ExecutorErrorView {
    ExecutorErrorView::InvalidArguments("mv: usage: mv <source> <destination>"@)
}

/// Whether `mv` accepts `args`: a source and a destination, no more.
pub fn check_arguments(args: &[String]) -> (res: Result<(), ExecutorError>)
    ensures
        args@.len() == 2 ==> res is Ok,
        args@.len() != 2 ==> res is Err && res->Err_0@ == usage(),
{
    if args.len() != 2 {
        return Err(
            ExecutorError::InvalidArguments("mv: usage: mv <source> <destination>".to_string()),
        );
    }
    Ok(())
}

} // verus!
