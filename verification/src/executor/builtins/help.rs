use vstd::prelude::*;
use crate::executor::types::{ExecutionResult, ExecutionResultView, ExecutorError};

verus! {

/// The text that `help` prints.
pub const HELP_TEXT: &'static str = r#"0-shell - Minimal Unix Shell

Available commands:
  echo [text]        - Display text
  cd [dir]           - Change directory
  pwd                - Show current directory
  ls [dir]           - List files (-a for hidden)
  cat <file>         - Show file content
  cp <src> <dst>     - Copy files/directories
  rm <file>          - Remove files (-r for directories)
  mv <src> <dst>     - Move/rename files
  mkdir <dir>        - Create directories
  clear              - Clear the terminal screen
  exit               - Exit shell
  help               - This help message

"#;

/// `help`: prints the list of operations, whatever the arguments.
pub fn execute(_args: &[String]) -> (res: Result<ExecutionResult, ExecutorError>)
    ensures
        res is Ok,
        res->Ok_0@ == (ExecutionResultView {
            output: HELP_TEXT@,
            success: true,
            should_exit: false,
        }),
{
    Ok(ExecutionResult { output: HELP_TEXT.to_string(), success: true, should_exit: false })
}

} // verus!
