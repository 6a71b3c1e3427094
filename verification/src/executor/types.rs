use vstd::prelude::*;

verus! {

/// What evaluating a command yields.
#[derive(Debug, Clone, PartialEq)]
pub struct ExecutionResult {
    /// The text to print.
    pub output: String,
    pub success: bool,
    /// Whether the interpreter is to end.
    pub should_exit: bool,
}

/// The mathematical value of an `ExecutionResult`.
pub struct ExecutionResultView {
    pub output: Seq<char>,
    pub success: bool,
    pub should_exit: bool,
}

impl View for ExecutionResult {
    type V = ExecutionResultView;

    open spec fn view(&self) -> ExecutionResultView {
        ExecutionResultView {
            output: self.output@,
            success: self.success,
            should_exit: self.should_exit,
        }
    }
}

/// The result of doing nothing: no output, success, no exit.
pub open spec fn default_result() -> ExecutionResultView {
    ExecutionResultView { output: Seq::empty(), success: true, should_exit: false }
}

impl Default for ExecutionResult {
    fn default() -> (result: Self)
        ensures
            result@ == default_result(),
    {
        Self { output: String::new(), success: true, should_exit: false }
    }
}

impl ExecutionResult {
    /// A copy of the result, with the same value.
    pub fn duplicate(&self) -> (result: Self)
        ensures
            result@ == self@,
    {
        ExecutionResult {
            output: self.output.clone(),
            success: self.success,
            should_exit: self.should_exit,
        }
    }
}

/// Why evaluating a command fails.
#[derive(Debug, Clone, PartialEq)]
pub enum ExecutorError {
    /// No operation has this name.
    CommandNotFound(String),
    /// The system refused an operation; the text is the system's.
    IoError(String),
    InvalidArguments(String),
    ChangeDirectoryError(String),
}

/// The mathematical value of an `ExecutorError`.
pub enum ExecutorErrorView {
    CommandNotFound(Seq<char>),
    IoError(Seq<char>),
    InvalidArguments(Seq<char>),
    ChangeDirectoryError(Seq<char>),
}

impl View for ExecutorError {
    type V = ExecutorErrorView;

    open spec fn view(&self) -> ExecutorErrorView {
        match self {
            ExecutorError::CommandNotFound(name) => ExecutorErrorView::CommandNotFound(name@),
            ExecutorError::IoError(text) => ExecutorErrorView::IoError(text@),
            ExecutorError::InvalidArguments(text) => ExecutorErrorView::InvalidArguments(text@),
            ExecutorError::ChangeDirectoryError(text) => ExecutorErrorView::ChangeDirectoryError(
                text@,
            ),
        }
    }
}

/// The message of an `ExecutorError`.
pub open spec fn executor_error_text(error: ExecutorErrorView) -> Seq<char> {
    match error {
        ExecutorErrorView::CommandNotFound(name) => "Command '"@ + name + "' not found"@,
        ExecutorErrorView::IoError(text) => "I/O error: "@ + text,
        ExecutorErrorView::InvalidArguments(text) => "Invalid arguments: "@ + text,
        ExecutorErrorView::ChangeDirectoryError(text) => "cd: "@ + text,
    }
}

impl ExecutorError {
    /// The message for the user.
    pub fn message(&self) -> (text: String)
        ensures
            text@ == executor_error_text(self@),
    {
        match self {
            ExecutorError::CommandNotFound(name) => {
                let mut text = "Command '".to_string();
                text.append(name.as_str());
                text.append("' not found");
                text
            },
            ExecutorError::IoError(detail) => {
                let mut text = "I/O error: ".to_string();
                text.append(detail.as_str());
                text
            },
            ExecutorError::InvalidArguments(detail) => {
                let mut text = "Invalid arguments: ".to_string();
                text.append(detail.as_str());
                text
            },
            ExecutorError::ChangeDirectoryError(detail) => {
                let mut text = "cd: ".to_string();
                text.append(detail.as_str());
                text
            },
        }
    }

    /// A copy of the error, with the same value.
    pub fn duplicate(&self) -> (error: Self)
        ensures
            error@ == self@,
    {
        match self {
            ExecutorError::CommandNotFound(name) => ExecutorError::CommandNotFound(name.clone()),
            ExecutorError::IoError(text) => ExecutorError::IoError(text.clone()),
            ExecutorError::InvalidArguments(text) => ExecutorError::InvalidArguments(text.clone()),
            ExecutorError::ChangeDirectoryError(text) => ExecutorError::ChangeDirectoryError(
                text.clone(),
            ),
        }
    }
}

/// The value of what an operation or an evaluation returns.
pub open spec fn outcome_view(outcome: Result<ExecutionResult, ExecutorError>) -> Result<
    ExecutionResultView,
    ExecutorErrorView,
> {
    match outcome {
        Ok(result) => Ok(result@),
        Err(e) => Err(e@),
    }
}

/// The values of a sequence of outcomes, in order.
pub open spec fn outcome_views(outcomes: Seq<Result<ExecutionResult, ExecutorError>>) -> Seq<
    Result<ExecutionResultView, ExecutorErrorView>,
> {
    Seq::new(outcomes.len(), |i: int| outcome_view(outcomes[i]))
}

/// A copy of an outcome, with the same value.
pub fn duplicate_outcome(outcome: &Result<ExecutionResult, ExecutorError>) -> (copy: Result<
    ExecutionResult,
    ExecutorError,
>)
    ensures
        outcome_view(copy) == outcome_view(*outcome),
{
    match outcome {
        Ok(result) => Ok(result.duplicate()),
        Err(e) => Err(e.duplicate()),
    }
}

} // verus!
