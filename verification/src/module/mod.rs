//! The commands that come with the bot.

pub mod help;
