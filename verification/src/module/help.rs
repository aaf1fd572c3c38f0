//! The `help` command.

use vstd::prelude::*;
use crate::context::Context;
use crate::flow::Flow;
use crate::message::ReplyError;

verus! {

/// The name the help command is registered under.
pub const HELP_COMMAND: &'static str = "help";

/// What the help command answers: where the usage of the bot is written
/// down.
pub const HELP_USAGE: &'static str =
    "Usage help can be found here: https://github.com/panicbit/playbot_ng/tree/master/README.md";

/// Answers with the usage text, once and with nothing else, and hands back
/// what became of that reply.
pub fn display_help<'a, R: Fn(&str) -> Result<(), ReplyError>>(ctx: &Context<'a, R>) -> (outcome: Result<(), ReplyError>)
    ensures
        call_ensures(ctx.message().replier(), (HELP_USAGE,), outcome),
{
    ctx.reply(HELP_USAGE)
}

/// Whether the usage text went out through the message of `ctx`: the
/// message's way to answer was called on that text and came back with some
/// outcome, good or bad.
pub open spec fn usage_went_out<'a, R: Fn(&str) -> Result<(), ReplyError>>(
    ctx: &Context<'a, R>,
) -> bool {
    exists|outcome: Result<(), ReplyError>| #[trigger]
        call_ensures(ctx.message().replier(), (HELP_USAGE,), outcome)
}

/// The handler of the help command: answers with the usage text, whatever
/// the arguments, and ends the dispatch of the message, whether or not the
/// text could be sent.
pub fn help_handler<'a, R: Fn(&str) -> Result<(), ReplyError>>(ctx: &Context<'a, R>, _args: &[&str]) -> (flow: Flow)
    ensures
        usage_went_out(ctx),
        flow == Flow::Break,
{
    let outcome = display_help(ctx);
    assert(call_ensures(ctx.message().replier(), (HELP_USAGE,), outcome));
    Flow::Break
}

} // verus!
