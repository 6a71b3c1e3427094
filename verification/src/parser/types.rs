use vstd::prelude::*;
use crate::lexer::types::{debug_text, token_debug, Token, TokenKind, TokenView};
use crate::text::string_views;

verus! {

/// A node of the command tree.
#[derive(Debug, PartialEq)]
pub enum Command {
    Simple(SimpleCommand),
    Pipe(PipeCommand),
    Redirect(RedirectCommand),
    And(AndCommand),
    Or(OrCommand),
    Sequence(SequenceCommand),
}

/// A named operation with its arguments: `echo hello world`. The first
/// argument is the name.
#[derive(Debug, Clone, PartialEq)]
pub struct SimpleCommand {
    pub args: Vec<String>,
}

/// `left | right`
#[derive(Debug, PartialEq)]
pub struct PipeCommand {
    pub left: Box<Command>,
    pub right: Box<Command>,
}

/// `command > filename`, `command < filename`
#[derive(Debug, PartialEq)]
pub struct RedirectCommand {
    pub command: Box<Command>,
    pub operator: RedirectOp,
    pub filename: String,
}

/// The direction of a redirection.
#[derive(Debug, Clone, Copy, PartialEq, Eq, Structural)]
pub enum RedirectOp {
    /// `>`
    Output,
    /// `<`
    Input,
    /// `>>`
    Append,
}

/// `left && right`
#[derive(Debug, PartialEq)]
pub struct AndCommand {
    pub left: Box<Command>,
    pub right: Box<Command>,
}

/// `left || right`
#[derive(Debug, PartialEq)]
pub struct OrCommand {
    pub left: Box<Command>,
    pub right: Box<Command>,
}

/// `first; second; third`
#[derive(Debug, PartialEq)]
pub struct SequenceCommand {
    pub commands: Vec<Command>,
}

/// The mathematical value of a command tree.
pub enum CommandView {
    Simple { args: Seq<Seq<char>> },
    Pipe { left: Box<CommandView>, right: Box<CommandView> },
    Redirect { command: Box<CommandView>, operator: RedirectOp, filename: Seq<char> },
    And { left: Box<CommandView>, right: Box<CommandView> },
    Or { left: Box<CommandView>, right: Box<CommandView> },
    Sequence { commands: Seq<CommandView> },
}

/// The values of a sequence of commands, in order.
pub open spec fn command_views(commands: Seq<Command>) -> Seq<CommandView> {
    Seq::new(commands.len(), |i: int| commands[i]@)
}

/// Appending a command appends its value.
pub proof fn lemma_command_views_push(commands: Seq<Command>, command: Command)
    ensures
        command_views(commands.push(command)) == command_views(commands).push(command@),
{
    assert(command_views(commands.push(command)) =~= command_views(commands).push(command@));
}

/// The value of a command tree: strings become sequences of characters.
pub open spec fn command_view(command: Command) -> CommandView
    decreases command,
{
    match command {
        Command::Simple(c) => CommandView::Simple { args: string_views(c.args@) },
        Command::Pipe(c) => CommandView::Pipe {
            left: Box::new(command_view(*c.left)),
            right: Box::new(command_view(*c.right)),
        },
        Command::Redirect(c) => CommandView::Redirect {
            command: Box::new(command_view(*c.command)),
            operator: c.operator,
            filename: c.filename@,
        },
        Command::And(c) => CommandView::And {
            left: Box::new(command_view(*c.left)),
            right: Box::new(command_view(*c.right)),
        },
        Command::Or(c) => CommandView::Or {
            left: Box::new(command_view(*c.left)),
            right: Box::new(command_view(*c.right)),
        },
        Command::Sequence(c) => CommandView::Sequence {
            commands: Seq::new(
                c.commands@.len(),
                |i: int|
                    if 0 <= i < c.commands@.len() {
                        command_view(c.commands@[i])
                    } else {
                        CommandView::Simple { args: Seq::empty() }
                    },
            ),
        },
    }
}

impl View for Command {
    type V = CommandView;

    open spec fn view(&self) -> CommandView {
        command_view(*self)
    }
}

/// Why parsing fails.
#[derive(Debug, Clone, PartialEq)]
pub enum ParseError {
    /// A token stands where another thing was expected.
    UnexpectedToken(Token, Expected),
    UnexpectedEof,
    UnmatchedPipe,
    InvalidRedirect,
    /// No word stands where a command has to begin.
    EmptyCommand,
}

/// What the parser expected to find.
#[derive(Debug, Clone, PartialEq)]
pub enum Expected {
    Command,
    Argument,
    Filename,
    /// An operator, or the end of the command, by its description.
    Operator(String),
}

/// The mathematical value of an `Expected`.
pub enum ExpectedView {
    Command,
    Argument,
    Filename,
    Operator(Seq<char>),
}

impl View for Expected {
    type V = ExpectedView;

    open spec fn view(&self) -> ExpectedView {
        match self {
            Expected::Command => ExpectedView::Command,
            Expected::Argument => ExpectedView::Argument,
            Expected::Filename => ExpectedView::Filename,
            Expected::Operator(text) => ExpectedView::Operator(text@),
        }
    }
}

/// The mathematical value of a `ParseError`.
pub enum ParseErrorView {
    UnexpectedToken(TokenView, ExpectedView),
    UnexpectedEof,
    UnmatchedPipe,
    InvalidRedirect,
    EmptyCommand,
}

impl View for ParseError {
    type V = ParseErrorView;

    open spec fn view(&self) -> ParseErrorView {
        match self {
            ParseError::UnexpectedToken(token, expected) => ParseErrorView::UnexpectedToken(
                token@,
                expected@,
            ),
            ParseError::UnexpectedEof => ParseErrorView::UnexpectedEof,
            ParseError::UnmatchedPipe => ParseErrorView::UnmatchedPipe,
            ParseError::InvalidRedirect => ParseErrorView::InvalidRedirect,
            ParseError::EmptyCommand => ParseErrorView::EmptyCommand,
        }
    }
}

/// How an `Expected` reads in a message.
pub open spec fn expected_text(expected: ExpectedView) -> Seq<char> {
    match expected {
        ExpectedView::Command => "command"@,
        ExpectedView::Argument => "argument"@,
        ExpectedView::Filename => "filename"@,
        ExpectedView::Operator(text) => "operator '"@ + text + "'"@,
    }
}

/// The message of a `ParseError`.
pub open spec fn parse_error_text(error: ParseErrorView) -> Seq<char> {
    match error {
        ParseErrorView::UnexpectedToken(token, expected) => "Unexpected token '"@ + debug_text(
            token,
        ) + "', expected "@ + expected_text(expected),
        ParseErrorView::UnexpectedEof => "Unexpected end of input"@,
        ParseErrorView::UnmatchedPipe => "Unmatched pipe operator '|'"@,
        ParseErrorView::InvalidRedirect => "Invalid redirect syntax"@,
        ParseErrorView::EmptyCommand => "Empty command"@,
    }
}

impl Expected {
    /// How the expectation reads in a message.
    pub fn describe(&self) -> (text: String)
        ensures
            text@ == expected_text(self@),
    {
        match self {
            Expected::Command => "command".to_string(),
            Expected::Argument => "argument".to_string(),
            Expected::Filename => "filename".to_string(),
            Expected::Operator(op) => {
                let mut text = "operator '".to_string();
                text.append(op.as_str());
                text.append("'");
                text
            },
        }
    }
}

impl ParseError {
    /// The message for the user.
    pub fn message(&self) -> (text: String)
        ensures
            text@ == parse_error_text(self@),
    {
        match self {
            ParseError::UnexpectedToken(token, expected) => {
                let mut text = "Unexpected token '".to_string();
                text.append(token_debug(token).as_str());
                text.append("', expected ");
                text.append(expected.describe().as_str());
                text
            },
            ParseError::UnexpectedEof => "Unexpected end of input".to_string(),
            ParseError::UnmatchedPipe => "Unmatched pipe operator '|'".to_string(),
            ParseError::InvalidRedirect => "Invalid redirect syntax".to_string(),
            ParseError::EmptyCommand => "Empty command".to_string(),
        }
    }
}

/// The redirection that a token kind stands for, if it stands for one.
pub open spec fn redirect_of(kind: TokenKind) -> Option<RedirectOp> {
    match kind {
        TokenKind::RedirectOut => Some(RedirectOp::Output),
        TokenKind::RedirectIn => Some(RedirectOp::Input),
        TokenKind::RedirectAppend => Some(RedirectOp::Append),
        _ => None,
    }
}

impl Command {
    /// The leaf command with the given arguments.
    pub fn simple(args: Vec<String>) -> (command: Self)
        ensures
            command == Command::Simple(SimpleCommand { args }),
            command@ == (CommandView::Simple { args: string_views(args@) }),
    {
        Command::Simple(SimpleCommand { args })
    }

    /// `left | right`
    pub fn pipe(left: Command, right: Command) -> (command: Self)
        ensures
            command@ == (CommandView::Pipe { left: Box::new(left@), right: Box::new(right@) }),
    {
        Command::Pipe(PipeCommand { left: Box::new(left), right: Box::new(right) })
    }

    /// `command`, redirected to or from `filename`.
    pub fn redirect(command: Command, operator: RedirectOp, filename: String) -> (redirected: Self)
        ensures
            redirected@ == (CommandView::Redirect {
                command: Box::new(command@),
                operator,
                filename: filename@,
            }),
    {
        Command::Redirect(RedirectCommand { command: Box::new(command), operator, filename })
    }

    /// `left && right`
    pub fn and(left: Command, right: Command) -> (command: Self)
        ensures
            command@ == (CommandView::And { left: Box::new(left@), right: Box::new(right@) }),
    {
        Command::And(AndCommand { left: Box::new(left), right: Box::new(right) })
    }

    /// `left || right`
    pub fn or(left: Command, right: Command) -> (command: Self)
        ensures
            command@ == (CommandView::Or { left: Box::new(left@), right: Box::new(right@) }),
    {
        Command::Or(OrCommand { left: Box::new(left), right: Box::new(right) })
    }

    /// The commands one after the other.
    pub fn sequence(commands: Vec<Command>) -> (command: Self)
        ensures
            command@ == (CommandView::Sequence { commands: command_views(commands@) }),
    {
        let command = Command::Sequence(SequenceCommand { commands });
        assert(command@->Sequence_commands =~= command_views(commands@));
        command
    }
}

impl RedirectOp {
    /// The redirection that a token stands for, if it stands for one.
    pub fn from_token(token: &Token) -> (operator: Option<Self>)
        ensures
            operator == redirect_of(token.kind),
    {
        match token.kind {
            TokenKind::RedirectOut => Some(RedirectOp::Output),
            TokenKind::RedirectIn => Some(RedirectOp::Input),
            TokenKind::RedirectAppend => Some(RedirectOp::Append),
            _ => None,
        }
    }
}

} // verus!
