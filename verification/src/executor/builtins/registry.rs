use vstd::prelude::*;
use crate::executor::state::Executor;
use crate::executor::types::{
    outcome_view, ExecutionResult, ExecutionResultView, ExecutorError, ExecutorErrorView,
};
use crate::text::{same_text, string_views};
use super::echo::echo_output;
use super::exit::exit_result;
use super::help::HELP_TEXT;
use super::rm::targets_of;

verus! {

/// The named operations.
#[derive(Debug, Clone, Copy, PartialEq, Eq, Structural)]
pub enum Builtin {
    Echo,
    Cd,
    Pwd,
    Ls,
    Exit,
    Cat,
    Cp,
    Rm,
    Mv,
    Mkdir,
    Clear,
    Help,
}

/// The operation that `name` names, if it names one.
pub open spec fn builtin_named(name: Seq<char>) -> Option<Builtin> {
    if name == "echo"@ {
        Some(Builtin::Echo)
    } else if name == "cd"@ {
        Some(Builtin::Cd)
    } else if name == "pwd"@ {
        Some(Builtin::Pwd)
    } else if name == "ls"@ {
        Some(Builtin::Ls)
    } else if name == "exit"@ {
        Some(Builtin::Exit)
    } else if name == "cat"@ {
        Some(Builtin::Cat)
    } else if name == "cp"@ {
        Some(Builtin::Cp)
    } else if name == "rm"@ {
        Some(Builtin::Rm)
    } else if name == "mv"@ {
        Some(Builtin::Mv)
    } else if name == "mkdir"@ {
        Some(Builtin::Mkdir)
    } else if name == "clear"@ {
        Some(Builtin::Clear)
    } else if name == "help"@ {
        Some(Builtin::Help)
    } else {
        None
    }
}

/// A successful result that prints `output` and does not end the
/// interpreter.
pub open spec fn printed(output: Seq<char>) -> Result<ExecutionResultView, ExecutorErrorView> {
    Ok(ExecutionResultView { output, success: true, should_exit: false })
}

/// What an operation on `args` in the directory `current_dir` yields, where
/// that is decided without the file system or the terminal: always for
/// `echo`, `pwd`, `exit` and `help`; for `mkdir`, `rm`, `cp` and `mv` where
/// they refuse their arguments. `None` where the host has to perform the
/// operation.
pub open spec fn decided(builtin: Builtin, args: Seq<Seq<char>>, current_dir: Seq<char>) -> Option<
    Result<ExecutionResultView, ExecutorErrorView>,
> {
    match builtin {
        Builtin::Echo => Some(printed(echo_output(args))),
        Builtin::Pwd => Some(printed(current_dir.push('\n'))),
        Builtin::Exit => Some(Ok(exit_result())),
        Builtin::Help => Some(printed(HELP_TEXT@)),
        Builtin::Mkdir => if args.len() == 0 {
            Some(Err(super::mkdir::missing_argument()))
        } else {
            None
        },
        Builtin::Rm => if targets_of(args).len() == 0 {
            Some(Err(super::rm::missing_argument()))
        } else {
            None
        },
        Builtin::Cp => if args.len() != 2 {
            Some(Err(super::cp::usage()))
        } else {
            None
        },
        Builtin::Mv => if args.len() != 2 {
            Some(Err(super::mv::usage()))
        } else {
            None
        },
        Builtin::Cd | Builtin::Ls | Builtin::Cat | Builtin::Clear => None,
    }
}

/// The value of what `Builtin::execute` returns.
pub open spec fn decision_view(decision: Option<Result<ExecutionResult, ExecutorError>>) -> Option<
    Result<ExecutionResultView, ExecutorErrorView>,
> {
    match decision {
        Some(outcome) => Some(outcome_view(outcome)),
        None => None,
    }
}

impl Builtin {
    /// The operation that `name` names, if it names one.
    pub fn from_name(name: &str) -> (builtin: Option<Self>)
        ensures
            builtin == builtin_named(name@),
    {
        if same_text(name, "echo") {
            Some(Builtin::Echo)
        } else if same_text(name, "cd") {
            Some(Builtin::Cd)
        } else if same_text(name, "pwd") {
            Some(Builtin::Pwd)
        } else if same_text(name, "ls") {
            Some(Builtin::Ls)
        } else if same_text(name, "exit") {
            Some(Builtin::Exit)
        } else if same_text(name, "cat") {
            Some(Builtin::Cat)
        } else if same_text(name, "cp") {
            Some(Builtin::Cp)
        } else if same_text(name, "rm") {
            Some(Builtin::Rm)
        } else if same_text(name, "mv") {
            Some(Builtin::Mv)
        } else if same_text(name, "mkdir") {
            Some(Builtin::Mkdir)
        } else if same_text(name, "clear") {
            Some(Builtin::Clear)
        } else if same_text(name, "help") {
            Some(Builtin::Help)
        } else {
            None
        }
    }

    /// Performs the operation as far as the interpreter can by itself:
    /// `echo`, `pwd`, `exit` and `help` altogether, and the refusal of
    /// arguments by `mkdir`, `rm`, `cp` and `mv`. Returns `None` where the
    /// host has to perform the operation on the file system or the
    /// terminal.
    pub fn execute(&self, args: &[String], executor: &Executor) -> (decision: Option<
        Result<ExecutionResult, ExecutorError>,
    >)
        ensures
            decision_view(decision) == decided(
                *self,
                string_views(args@),
                executor.current_dir(),
            ),
    {
        match self {
            Builtin::Echo => Some(super::echo::execute(args)),
            Builtin::Pwd => Some(super::pwd::execute(executor)),
            Builtin::Exit => Some(super::exit::execute()),
            Builtin::Help => Some(super::help::execute(args)),
            Builtin::Mkdir => match super::mkdir::check_arguments(args) {
                Ok(_) => None,
                Err(e) => Some(Err(e)),
            },
            Builtin::Rm => match super::rm::check_arguments(args) {
                Ok(_) => None,
                Err(e) => Some(Err(e)),
            },
            Builtin::Cp => match super::cp::check_arguments(args) {
                Ok(_) => None,
                Err(e) => Some(Err(e)),
            },
            Builtin::Mv => match super::mv::check_arguments(args) {
                Ok(_) => None,
                Err(e) => Some(Err(e)),
            },
            Builtin::Cd | Builtin::Ls | Builtin::Cat | Builtin::Clear => None,
        }
    }
}

} // verus!
