//! What evaluating a command tree means.
//!
//! The interpreter decides the control flow; the host performs the
//! operations that touch the file system or the terminal. Evaluation is
//! therefore stated over the outcomes that the host has reported so far, in
//! the order in which the operations were asked for: it either ends with a
//! result, or names the next operation for the host.

use vstd::prelude::*;
use crate::parser::types::CommandView;
use super::builtins::registry::{builtin_named, decided, Builtin};
use super::types::{default_result, ExecutionResultView, ExecutorErrorView};

verus! {

/// Where an evaluation stands.
pub enum StepView {
    /// The host is to perform `builtin` on `args` and report the outcome.
    Run { builtin: Builtin, args: Seq<Seq<char>> },
    /// The evaluation has ended.
    Done(Result<ExecutionResultView, ExecutorErrorView>),
}

/// What a pipeline yields: it is not performed, and fails.
pub open spec fn pipe_result() -> ExecutionResultView {
    ExecutionResultView {
        output: "Pipes not yet implemented\n"@,
        success: false,
        should_exit: false,
    }
}

/// What `&&` yields when its left side failed with `left`: the left side's
/// output, and failure.
pub open spec fn failed_left(left: ExecutionResultView) -> ExecutionResultView {
    ExecutionResultView { output: left.output, success: false, should_exit: false }
}

/// A simple command. Without arguments it does nothing. Else the first
/// argument names the operation, which gets the others. What the
/// interpreter decides by itself is the result; for the rest, the next
/// reported outcome is, and without one the host is asked.
pub open spec fn evaluate_simple(
    args: Seq<Seq<char>>,
    current_dir: Seq<char>,
    outcomes: Seq<Result<ExecutionResultView, ExecutorErrorView>>,
    used: nat,
) -> (StepView, nat) {
    if args.len() == 0 {
        (StepView::Done(Ok(default_result())), used)
    } else {
        match builtin_named(args[0]) {
            None => (StepView::Done(Err(ExecutorErrorView::CommandNotFound(args[0]))), used),
            Some(builtin) => {
                let rest = args.subrange(1, args.len() as int);
                match decided(builtin, rest, current_dir) {
                    Some(outcome) => (StepView::Done(outcome), used),
                    None => if used < outcomes.len() {
                        (StepView::Done(outcomes[used as int]), used + 1)
                    } else {
                        (StepView::Run { builtin, args: rest }, used)
                    },
                }
            },
        }
    }
}

/// Evaluates `command` in the directory `current_dir`, given the outcomes
/// that the host has reported, of which the first `used` belong to what was
/// evaluated before. Returns where the evaluation stands and how many
/// outcomes are used then.
pub open spec fn evaluate(
    command: CommandView,
    current_dir: Seq<char>,
    outcomes: Seq<Result<ExecutionResultView, ExecutorErrorView>>,
    used: nat,
) -> (StepView, nat)
    decreases command, 0nat,
{
    match command {
        CommandView::Simple { args } => evaluate_simple(args, current_dir, outcomes, used),
        CommandView::Pipe { .. } => (StepView::Done(Ok(pipe_result())), used),
        CommandView::Redirect { command, .. } => evaluate(*command, current_dir, outcomes, used),
        CommandView::And { left, right } => {
            let (step, next) = evaluate(*left, current_dir, outcomes, used);
            match step {
                StepView::Done(Ok(result)) => if result.success {
                    evaluate(*right, current_dir, outcomes, next)
                } else {
                    (StepView::Done(Ok(failed_left(result))), next)
                },
                _ => (step, next),
            }
        },
        CommandView::Or { left, right } => {
            let (step, next) = evaluate(*left, current_dir, outcomes, used);
            match step {
                StepView::Done(Ok(result)) => if !result.success {
                    evaluate(*right, current_dir, outcomes, next)
                } else {
                    (step, next)
                },
                _ => (step, next),
            }
        },
        CommandView::Sequence { commands } => evaluate_all(
            commands,
            0,
            current_dir,
            outcomes,
            used,
            default_result(),
        ),
    }
}

/// Evaluates the members of a sequence from the one at `from` on, each
/// whatever the one before it yielded; `last` is the result of the member
/// before `from`. An error ends the sequence; the last member's result is
/// the sequence's.
pub open spec fn evaluate_all(
    commands: Seq<CommandView>,
    from: nat,
    current_dir: Seq<char>,
    outcomes: Seq<Result<ExecutionResultView, ExecutorErrorView>>,
    used: nat,
    last: ExecutionResultView,
) -> (StepView, nat)
    decreases commands, commands.len() - from,
{
    if from >= commands.len() {
        (StepView::Done(Ok(last)), used)
    } else {
        let (step, next) = evaluate(commands[from as int], current_dir, outcomes, used);
        match step {
            StepView::Done(Ok(result)) => evaluate_all(
                commands,
                from + 1,
                current_dir,
                outcomes,
                next,
                result,
            ),
            _ => (step, next),
        }
    }
}

} // verus!
