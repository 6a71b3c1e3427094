//! The front end of a small interactive command interpreter: a lexer that
//! turns a typed line into tokens, a recursive-descent parser that builds
//! the command tree, and an evaluator that fixes the control flow of the
//! tree (sequencing, short-circuit combinators, pipelines, redirection).
//!
//! Every function is verified against a mathematical model: the lexer
//! against a transition function on scanning states, the parser against a
//! grammar written as specification functions, the evaluator against a
//! semantics over the outcomes of the named operations.

pub mod text;
pub mod lexer;
pub mod parser;
pub mod executor;
pub mod round_trip;
pub mod prompt;
