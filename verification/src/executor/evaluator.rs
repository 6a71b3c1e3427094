use vstd::prelude::*;
use vstd::slice::slice_subrange;
use crate::parser::types::{
    command_views, AndCommand, Command, CommandView, OrCommand, PipeCommand, RedirectCommand,
    SequenceCommand,
};
use crate::text::{clone_strings, string_views};
use super::builtins::registry::Builtin;
use super::semantics::{evaluate, evaluate_all, evaluate_simple, pipe_result, StepView};
use super::state::Executor;
use super::types::{
    default_result, duplicate_outcome, outcome_view, outcome_views, ExecutionResult, ExecutorError,
};

verus! {

/// Where an evaluation stands.
#[derive(Debug, PartialEq)]
pub enum Step {
    /// The host is to perform `builtin` on `args` and report the outcome.
    Run { builtin: Builtin, args: Vec<String> },
    /// The evaluation has ended.
    Done(Result<ExecutionResult, ExecutorError>),
}

impl View for Step {
    type V = StepView;

    open spec fn view(&self) -> StepView {
        match self {
            Step::Run { builtin, args } => StepView::Run {
                builtin: *builtin,
                args: string_views(args@),
            },
            Step::Done(outcome) => StepView::Done(outcome_view(*outcome)),
        }
    }
}

/// Whether `res` is the step and the count of `expected`.
pub open spec fn stands(res: (Step, usize), expected: (StepView, nat)) -> bool {
    res.0@ == expected.0 && res.1 == expected.1
}

impl Executor {
    /// Evaluates `command`, given the outcomes that the host has reported
    /// for the operations it was asked to perform, in the order of asking.
    /// Returns the result if those outcomes suffice; else the next operation
    /// for the host, whose outcome is to be added to `outcomes` for the next
    /// call.
    pub fn execute(
        &self,
        command: &Command,
        outcomes: &[Result<ExecutionResult, ExecutorError>],
    ) -> (step: Step)
        ensures
            step@ == evaluate(command@, self.current_dir(), outcome_views(outcomes@), 0).0,
    {
        self.execute_from(command, outcomes, 0).0
    }

    /// Evaluates `command` with the outcomes from `used` on.
    fn execute_from(
        &self,
        command: &Command,
        outcomes: &[Result<ExecutionResult, ExecutorError>],
        used: usize,
    ) -> (res: (Step, usize))
        requires
            used <= outcomes.len(),
        ensures
            stands(
                res,
                evaluate(command@, self.current_dir(), outcome_views(outcomes@), used as nat),
            ),
            res.1 <= outcomes.len(),
        decreases command,
    {
        match command {
            Command::Simple(cmd) => self.execute_simple(cmd.args.as_slice(), outcomes, used),
            Command::Pipe(pipe_cmd) => self.execute_pipe(pipe_cmd, used),
            Command::Redirect(redirect_cmd) => self.execute_redirect(redirect_cmd, outcomes, used),
            Command::And(and_cmd) => self.execute_and(and_cmd, outcomes, used),
            Command::Or(or_cmd) => self.execute_or(or_cmd, outcomes, used),
            Command::Sequence(seq_cmd) => {
                assert(command@->Sequence_commands =~= command_views(seq_cmd.commands@));
                self.execute_sequence(seq_cmd, outcomes, used)
            },
        }
    }

    /// A simple command: the operation that the first argument names, on
    /// the other arguments.
    fn execute_simple(
        &self,
        args: &[String],
        outcomes: &[Result<ExecutionResult, ExecutorError>],
        used: usize,
    ) -> (res: (Step, usize))
        requires
            used <= outcomes.len(),
        ensures
            stands(
                res,
                evaluate_simple(
                    string_views(args@),
                    self.current_dir(),
                    outcome_views(outcomes@),
                    used as nat,
                ),
            ),
            res.1 <= outcomes.len(),
    {
        if args.len() == 0 {
            return (Step::Done(Ok(ExecutionResult::default())), used);
        }
        let command_name = &args[0];
        let command_args = slice_subrange(args, 1, args.len());
        assert(string_views(command_args@) =~= string_views(args@).subrange(
            1,
            args@.len() as int,
        ));
        match Builtin::from_name(command_name.as_str()) {
            Some(builtin) => match builtin.execute(command_args, self) {
                Some(outcome) => (Step::Done(outcome), used),
                None => if used < outcomes.len() {
                    (Step::Done(duplicate_outcome(&outcomes[used])), used + 1)
                } else {
                    (Step::Run { builtin, args: clone_strings(command_args) }, used)
                },
            },
            None => (Step::Done(Err(ExecutorError::CommandNotFound(command_name.clone()))), used),
        }
    }

    /// A pipeline: not performed; it fails without a look at its sides.
    fn execute_pipe(&self, _pipe_cmd: &PipeCommand, used: usize) -> (res: (Step, usize))
        ensures
            res.0@ == StepView::Done(Ok(pipe_result())),
            res.1 == used,
    {
        (
            Step::Done(
                Ok(
                    ExecutionResult {
                        output: "Pipes not yet implemented\n".to_string(),
                        success: false,
                        should_exit: false,
                    },
                ),
            ),
            used,
        )
    }

    /// A redirection: the command alone, the operator and the file name
    /// left aside.
    fn execute_redirect(
        &self,
        redirect_cmd: &RedirectCommand,
        outcomes: &[Result<ExecutionResult, ExecutorError>],
        used: usize,
    ) -> (res: (Step, usize))
        requires
            used <= outcomes.len(),
        ensures
            stands(
                res,
                evaluate(
                    redirect_cmd.command@,
                    self.current_dir(),
                    outcome_views(outcomes@),
                    used as nat,
                ),
            ),
            res.1 <= outcomes.len(),
        decreases redirect_cmd,
    {
        self.execute_from(&redirect_cmd.command, outcomes, used)
    }

    /// `left && right`: the right side only if the left one succeeded.
    fn execute_and(
        &self,
        and_cmd: &AndCommand,
        outcomes: &[Result<ExecutionResult, ExecutorError>],
        used: usize,
    ) -> (res: (Step, usize))
        requires
            used <= outcomes.len(),
        ensures
            stands(
                res,
                evaluate(
                    CommandView::And {
                        left: Box::new(and_cmd.left@),
                        right: Box::new(and_cmd.right@),
                    },
                    self.current_dir(),
                    outcome_views(outcomes@),
                    used as nat,
                ),
            ),
            res.1 <= outcomes.len(),
        decreases and_cmd,
    {
        let (step, next) = self.execute_from(&and_cmd.left, outcomes, used);
        match step {
            Step::Done(Ok(left_result)) => {
                if left_result.success {
                    self.execute_from(&and_cmd.right, outcomes, next)
                } else {
                    (
                        Step::Done(
                            Ok(
                                ExecutionResult {
                                    output: left_result.output,
                                    success: false,
                                    should_exit: false,
                                },
                            ),
                        ),
                        next,
                    )
                }
            },
            other => (other, next),
        }
    }

    /// `left || right`: the right side only if the left one failed.
    fn execute_or(
        &self,
        or_cmd: &OrCommand,
        outcomes: &[Result<ExecutionResult, ExecutorError>],
        used: usize,
    ) -> (res: (Step, usize))
        requires
            used <= outcomes.len(),
        ensures
            stands(
                res,
                evaluate(
                    CommandView::Or {
                        left: Box::new(or_cmd.left@),
                        right: Box::new(or_cmd.right@),
                    },
                    self.current_dir(),
                    outcome_views(outcomes@),
                    used as nat,
                ),
            ),
            res.1 <= outcomes.len(),
        decreases or_cmd,
    {
        let (step, next) = self.execute_from(&or_cmd.left, outcomes, used);
        match step {
            Step::Done(Ok(left_result)) => {
                if !left_result.success {
                    self.execute_from(&or_cmd.right, outcomes, next)
                } else {
                    (Step::Done(Ok(left_result)), next)
                }
            },
            other => (other, next),
        }
    }

    /// A sequence: every member in order, whatever the one before it
    /// yielded; the last member's result is the sequence's.
    fn execute_sequence(
        &self,
        seq_cmd: &SequenceCommand,
        outcomes: &[Result<ExecutionResult, ExecutorError>],
        used: usize,
    ) -> (res: (Step, usize))
        requires
            used <= outcomes.len(),
        ensures
            stands(
                res,
                evaluate_all(
                    command_views(seq_cmd.commands@),
                    0,
                    self.current_dir(),
                    outcome_views(outcomes@),
                    used as nat,
                    default_result(),
                ),
            ),
            res.1 <= outcomes.len(),
        decreases seq_cmd,
    {
        let ghost views = command_views(seq_cmd.commands@);
        let ghost reported = outcome_views(outcomes@);
        let mut last_result = ExecutionResult::default();
        let mut next = used;
        let mut i: usize = 0;
        while i < seq_cmd.commands.len()
            invariant
                i <= seq_cmd.commands.len(),
                next <= outcomes.len(),
                views == command_views(seq_cmd.commands@),
                reported == outcome_views(outcomes@),
                evaluate_all(views, i as nat, self.current_dir(), reported, next as nat, last_result@)
                    == evaluate_all(
                    views,
                    0,
                    self.current_dir(),
                    reported,
                    used as nat,
                    default_result(),
                ),
            decreases seq_cmd.commands.len() - i,
        {
            let (step, after) = self.execute_from(&seq_cmd.commands[i], outcomes, next);
            match step {
                Step::Done(Ok(result)) => {
                    last_result = result;
                    next = after;
                },
                other => {
                    return (other, after);
                },
            }
            i += 1;
        }
        (Step::Done(Ok(last_result)), next)
    }
}

} // verus!
