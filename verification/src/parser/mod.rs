//! Parsing: from a sequence of tokens to a command tree.

pub mod types;
pub mod grammar;
pub mod laws;
pub mod simple;
pub mod parser;

pub use types::{
    AndCommand, Command, CommandView, Expected, OrCommand, ParseError, PipeCommand,
    RedirectCommand, RedirectOp, SequenceCommand, SimpleCommand,
};
pub use parser::Parser;
pub use simple::parse_simple;
