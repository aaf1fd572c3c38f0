//! Command dispatch for a chat bot.
//!
//! A [`CommandRegistry`] holds the handlers of a bot: one for each command
//! name, and a chain of fallbacks. For each incoming [`Message`] it decides
//! which of them run, in three stages: the command the message opens with,
//! the commands it holds in braces, the fallbacks. Every handler answers with
//! a [`Flow`], and a `Break` keeps the later stages from running. A handler
//! sees the message through a [`Context`]; a [`Command`] is what the parser
//! makes of a context's text.

pub mod flow;
pub mod text;
pub mod command;
pub mod message;
pub mod inline;
pub mod context;
pub mod command_registry;
pub mod module;

pub use command::Command;
pub use command_registry::CommandRegistry;
pub use context::Context;
pub use flow::Flow;
pub use message::{Message, ReplyError};
