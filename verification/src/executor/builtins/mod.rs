//! The named operations, and what the interpreter decides about them
//! without the file system or the terminal.

pub mod echo;
pub mod exit;
pub mod help;
pub mod pwd;
pub mod mkdir;
pub mod cp;
pub mod mv;
pub mod rm;
pub mod ls;
pub mod options;
pub mod registry;

pub use registry::Builtin;
