//! A command-invocation framework for chat bots: one command definition serves both free-text
//! prefix messages and structured interactions.
//!
//! The pipeline is resolution (`tree`), admission checks (`checks`, `cooldown`), argument
//! coercion (`args`) and reply delivery (`reply`). Work that suspends (the platform transport,
//! the integrator's predicates and actions) is left to the caller, which feeds each outcome
//! back into the step that decides what comes next.

pub mod args;
pub mod builder;
pub mod checks;
pub mod command;
pub mod context;
pub mod cooldown;
pub mod error;
pub mod permissions;
pub mod reply;
pub mod text;
pub mod tree;

pub use args::Autocompletable;
pub use builder::{CommandBuilder, CommandDefinition, FrameworkOptions};
pub use command::Command;
pub use context::{CommandErrorContext, CommandRef, Context, ErrorContext};
