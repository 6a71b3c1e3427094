//! What holds of every evaluation.

use vstd::prelude::*;
use crate::parser::types::{CommandView, RedirectOp};
use super::semantics::{evaluate, evaluate_all, pipe_result, StepView};
use super::types::{ExecutionResultView, ExecutorErrorView};

verus! {

/// `left && right` with a left side that failed: the result is the left
/// side's output with failure, and the evaluation stands where the left
/// side left it. The right side plays no part: no operation of it is asked
/// for, and no outcome is used for it.
pub proof fn lemma_and_short_circuit(
    left: CommandView,
    right: CommandView,
    current_dir: Seq<char>,
    outcomes: Seq<Result<ExecutionResultView, ExecutorErrorView>>,
    used: nat,
    result: ExecutionResultView,
)
    requires
        evaluate(left, current_dir, outcomes, used).0 == StepView::Done(Ok(result)),
        !result.success,
    ensures
        evaluate(
            CommandView::And { left: Box::new(left), right: Box::new(right) },
            current_dir,
            outcomes,
            used,
        ) == (
            StepView::Done(
                Ok(
                    ExecutionResultView {
                        output: result.output,
                        success: false,
                        should_exit: false,
                    },
                ),
            ),
            evaluate(left, current_dir, outcomes, used).1,
        ),
{
}

/// `left || right` with a left side that succeeded: the result is the left
/// side's, unchanged, and the evaluation stands where the left side left
/// it. The right side plays no part.
pub proof fn lemma_or_short_circuit(
    left: CommandView,
    right: CommandView,
    current_dir: Seq<char>,
    outcomes: Seq<Result<ExecutionResultView, ExecutorErrorView>>,
    used: nat,
    result: ExecutionResultView,
)
    requires
        evaluate(left, current_dir, outcomes, used).0 == StepView::Done(Ok(result)),
        result.success,
    ensures
        evaluate(
            CommandView::Or { left: Box::new(left), right: Box::new(right) },
            current_dir,
            outcomes,
            used,
        ) == evaluate(left, current_dir, outcomes, used),
{
}

/// Where the left side decides, two right sides make no difference to `&&`
/// and `||`.
pub proof fn lemma_skipped_side_is_irrelevant(
    left: CommandView,
    first: CommandView,
    second: CommandView,
    current_dir: Seq<char>,
    outcomes: Seq<Result<ExecutionResultView, ExecutorErrorView>>,
    used: nat,
)
    ensures
        evaluate(left, current_dir, outcomes, used).0 matches StepView::Done(Ok(result))
            && !result.success ==> evaluate(
            CommandView::And { left: Box::new(left), right: Box::new(first) },
            current_dir,
            outcomes,
            used,
        ) == evaluate(
            CommandView::And { left: Box::new(left), right: Box::new(second) },
            current_dir,
            outcomes,
            used,
        ),
        evaluate(left, current_dir, outcomes, used).0 matches StepView::Done(Ok(result))
            && result.success ==> evaluate(
            CommandView::Or { left: Box::new(left), right: Box::new(first) },
            current_dir,
            outcomes,
            used,
        ) == evaluate(
            CommandView::Or { left: Box::new(left), right: Box::new(second) },
            current_dir,
            outcomes,
            used,
        ),
{
}

/// A pipeline fails, whatever its sides are and whatever was reported; it
/// uses no outcome.
pub proof fn lemma_pipe_fails(
    left: CommandView,
    right: CommandView,
    current_dir: Seq<char>,
    outcomes: Seq<Result<ExecutionResultView, ExecutorErrorView>>,
    used: nat,
)
    ensures
        evaluate(
            CommandView::Pipe { left: Box::new(left), right: Box::new(right) },
            current_dir,
            outcomes,
            used,
        ) == (StepView::Done(Ok(pipe_result())), used),
        !pipe_result().success,
{
}

/// A redirection evaluates as its command alone, whatever the operator and
/// the file name.
pub proof fn lemma_redirect_is_transparent(
    command: CommandView,
    operator: RedirectOp,
    filename: Seq<char>,
    current_dir: Seq<char>,
    outcomes: Seq<Result<ExecutionResultView, ExecutorErrorView>>,
    used: nat,
)
    ensures
        evaluate(
            CommandView::Redirect { command: Box::new(command), operator, filename },
            current_dir,
            outcomes,
            used,
        ) == evaluate(command, current_dir, outcomes, used),
{
}

/// An evaluation uses the outcomes in order and never more than there are;
/// where it asks the host for an operation, it has used them all.
pub proof fn lemma_evaluate_uses_outcomes(
    command: CommandView,
    current_dir: Seq<char>,
    outcomes: Seq<Result<ExecutionResultView, ExecutorErrorView>>,
    used: nat,
)
    requires
        used <= outcomes.len(),
    ensures
        used <= evaluate(command, current_dir, outcomes, used).1 <= outcomes.len(),
        evaluate(command, current_dir, outcomes, used).0 is Run ==> evaluate(
            command,
            current_dir,
            outcomes,
            used,
        ).1 == outcomes.len(),
    decreases command, 0nat,
{
    match command {
        CommandView::Simple { .. } => {},
        CommandView::Pipe { .. } => {},
        CommandView::Redirect { command, .. } => {
            lemma_evaluate_uses_outcomes(*command, current_dir, outcomes, used);
        },
        CommandView::And { left, right } => {
            lemma_evaluate_uses_outcomes(*left, current_dir, outcomes, used);
            let next = evaluate(*left, current_dir, outcomes, used).1;
            lemma_evaluate_uses_outcomes(*right, current_dir, outcomes, next);
        },
        CommandView::Or { left, right } => {
            lemma_evaluate_uses_outcomes(*left, current_dir, outcomes, used);
            let next = evaluate(*left, current_dir, outcomes, used).1;
            lemma_evaluate_uses_outcomes(*right, current_dir, outcomes, next);
        },
        CommandView::Sequence { commands } => {
            lemma_evaluate_all_uses_outcomes(
                commands,
                0,
                current_dir,
                outcomes,
                used,
                super::types::default_result(),
            );
        },
    }
}

/// The same for the members of a sequence.
pub proof fn lemma_evaluate_all_uses_outcomes(
    commands: Seq<CommandView>,
    from: nat,
    current_dir: Seq<char>,
    outcomes: Seq<Result<ExecutionResultView, ExecutorErrorView>>,
    used: nat,
    last: ExecutionResultView,
)
    requires
        used <= outcomes.len(),
    ensures
        used <= evaluate_all(commands, from, current_dir, outcomes, used, last).1
            <= outcomes.len(),
        evaluate_all(commands, from, current_dir, outcomes, used, last).0 is Run ==> evaluate_all(
            commands,
            from,
            current_dir,
            outcomes,
            used,
            last,
        ).1 == outcomes.len(),
    decreases commands, commands.len() - from,
{
    if from < commands.len() {
        lemma_evaluate_uses_outcomes(commands[from as int], current_dir, outcomes, used);
        let (step, next) = evaluate(commands[from as int], current_dir, outcomes, used);
        if let StepView::Done(Ok(result)) = step {
            lemma_evaluate_all_uses_outcomes(
                commands,
                from + 1,
                current_dir,
                outcomes,
                next,
                result,
            );
        }
    }
}

/// Once an evaluation has ended, further outcomes change nothing.
pub proof fn lemma_result_is_final(
    command: CommandView,
    current_dir: Seq<char>,
    outcomes: Seq<Result<ExecutionResultView, ExecutorErrorView>>,
    more: Seq<Result<ExecutionResultView, ExecutorErrorView>>,
    used: nat,
)
    requires
        used <= outcomes.len(),
        evaluate(command, current_dir, outcomes, used).0 is Done,
    ensures
        evaluate(command, current_dir, outcomes + more, used) == evaluate(
            command,
            current_dir,
            outcomes,
            used,
        ),
    decreases command, 0nat,
{
    let longer = outcomes + more;
    assert(forall|i: int| 0 <= i < outcomes.len() ==> longer[i] == outcomes[i]);
    match command {
        CommandView::Simple { .. } => {},
        CommandView::Pipe { .. } => {},
        CommandView::Redirect { command, .. } => {
            lemma_result_is_final(*command, current_dir, outcomes, more, used);
        },
        CommandView::And { left, right } => {
            lemma_evaluate_uses_outcomes(*left, current_dir, outcomes, used);
            lemma_result_is_final(*left, current_dir, outcomes, more, used);
            let (step, next) = evaluate(*left, current_dir, outcomes, used);
            if let StepView::Done(Ok(result)) = step {
                if result.success {
                    lemma_result_is_final(*right, current_dir, outcomes, more, next);
                }
            }
        },
        CommandView::Or { left, right } => {
            lemma_evaluate_uses_outcomes(*left, current_dir, outcomes, used);
            lemma_result_is_final(*left, current_dir, outcomes, more, used);
            let (step, next) = evaluate(*left, current_dir, outcomes, used);
            if let StepView::Done(Ok(result)) = step {
                if !result.success {
                    lemma_result_is_final(*right, current_dir, outcomes, more, next);
                }
            }
        },
        CommandView::Sequence { commands } => {
            lemma_sequence_result_is_final(
                commands,
                0,
                current_dir,
                outcomes,
                more,
                used,
                super::types::default_result(),
            );
        },
    }
}

/// The same for the members of a sequence.
pub proof fn lemma_sequence_result_is_final(
    commands: Seq<CommandView>,
    from: nat,
    current_dir: Seq<char>,
    outcomes: Seq<Result<ExecutionResultView, ExecutorErrorView>>,
    more: Seq<Result<ExecutionResultView, ExecutorErrorView>>,
    used: nat,
    last: ExecutionResultView,
)
    requires
        used <= outcomes.len(),
        evaluate_all(commands, from, current_dir, outcomes, used, last).0 is Done,
    ensures
        evaluate_all(commands, from, current_dir, outcomes + more, used, last) == evaluate_all(
            commands,
            from,
            current_dir,
            outcomes,
            used,
            last,
        ),
    decreases commands, commands.len() - from,
{
    if from < commands.len() {
        lemma_evaluate_uses_outcomes(commands[from as int], current_dir, outcomes, used);
        lemma_result_is_final(commands[from as int], current_dir, outcomes, more, used);
        let (step, next) = evaluate(commands[from as int], current_dir, outcomes, used);
        if let StepView::Done(Ok(result)) = step {
            lemma_sequence_result_is_final(
                commands,
                from + 1,
                current_dir,
                outcomes,
                more,
                next,
                result,
            );
        }
    }
}

/// Whether two outcomes agree in all but the output of a result.
pub open spec fn alike(
    a: Result<ExecutionResultView, ExecutorErrorView>,
    b: Result<ExecutionResultView, ExecutorErrorView>,
) -> bool {
    match (a, b) {
        (Ok(x), Ok(y)) => x.success == y.success && x.should_exit == y.should_exit,
        (Err(e), Err(f)) => e == f,
        _ => false,
    }
}

/// Whether two evaluations stand at the same place: they ask for the same
/// operation, or have ended alike.
pub open spec fn steps_alike(a: StepView, b: StepView) -> bool {
    match (a, b) {
        (
            StepView::Run { builtin: first, args: first_args },
            StepView::Run { builtin: second, args: second_args },
        ) => first == second && first_args == second_args,
        (StepView::Done(x), StepView::Done(y)) => alike(x, y),
        _ => false,
    }
}

/// The current directory decides nothing but output: in two directories an
/// evaluation takes the same way through the command, uses the same
/// outcomes, and asks for the same operation or ends alike. So an
/// evaluation that is taken up again after the host has changed the
/// directory goes on where it stood.
pub proof fn lemma_directory_decides_output_only(
    command: CommandView,
    first_dir: Seq<char>,
    second_dir: Seq<char>,
    outcomes: Seq<Result<ExecutionResultView, ExecutorErrorView>>,
    used: nat,
)
    ensures
        steps_alike(
            evaluate(command, first_dir, outcomes, used).0,
            evaluate(command, second_dir, outcomes, used).0,
        ),
        evaluate(command, first_dir, outcomes, used).1 == evaluate(
            command,
            second_dir,
            outcomes,
            used,
        ).1,
    decreases command, 0nat,
{
    match command {
        CommandView::Simple { .. } => {},
        CommandView::Pipe { .. } => {},
        CommandView::Redirect { command, .. } => {
            lemma_directory_decides_output_only(*command, first_dir, second_dir, outcomes, used);
        },
        CommandView::And { left, right } => {
            lemma_directory_decides_output_only(*left, first_dir, second_dir, outcomes, used);
            let next = evaluate(*left, first_dir, outcomes, used).1;
            lemma_directory_decides_output_only(*right, first_dir, second_dir, outcomes, next);
        },
        CommandView::Or { left, right } => {
            lemma_directory_decides_output_only(*left, first_dir, second_dir, outcomes, used);
            let next = evaluate(*left, first_dir, outcomes, used).1;
            lemma_directory_decides_output_only(*right, first_dir, second_dir, outcomes, next);
        },
        CommandView::Sequence { commands } => {
            lemma_directory_decides_output_only_in_sequence(
                commands,
                0,
                first_dir,
                second_dir,
                outcomes,
                used,
                super::types::default_result(),
                super::types::default_result(),
            );
        },
    }
}

/// The same for the members of a sequence.
pub proof fn lemma_directory_decides_output_only_in_sequence(
    commands: Seq<CommandView>,
    from: nat,
    first_dir: Seq<char>,
    second_dir: Seq<char>,
    outcomes: Seq<Result<ExecutionResultView, ExecutorErrorView>>,
    used: nat,
    first_last: ExecutionResultView,
    second_last: ExecutionResultView,
)
    requires
        first_last.success == second_last.success,
        first_last.should_exit == second_last.should_exit,
    ensures
        steps_alike(
            evaluate_all(commands, from, first_dir, outcomes, used, first_last).0,
            evaluate_all(commands, from, second_dir, outcomes, used, second_last).0,
        ),
        evaluate_all(commands, from, first_dir, outcomes, used, first_last).1 == evaluate_all(
            commands,
            from,
            second_dir,
            outcomes,
            used,
            second_last,
        ).1,
    decreases commands, commands.len() - from,
{
    if from < commands.len() {
        lemma_directory_decides_output_only(
            commands[from as int],
            first_dir,
            second_dir,
            outcomes,
            used,
        );
        let (first, next) = evaluate(commands[from as int], first_dir, outcomes, used);
        let (second, _) = evaluate(commands[from as int], second_dir, outcomes, used);
        if let StepView::Done(Ok(first_result)) = first {
            if let StepView::Done(Ok(second_result)) = second {
                lemma_directory_decides_output_only_in_sequence(
                    commands,
                    from + 1,
                    first_dir,
                    second_dir,
                    outcomes,
                    next,
                    first_result,
                    second_result,
                );
            }
        }
    }
}

} // verus!
