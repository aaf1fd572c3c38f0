//! One incoming message, as the chat transport hands it over.

use vstd::prelude::*;
use std::sync::Arc;

verus! {

/// Why a reply could not be sent.
pub struct ReplyError {
    reason: String,
}

impl ReplyError {
    /// What the transport said.
    pub closed spec fn reason_text(&self) -> Seq<char> {
        self.reason@
    }

    /// A failure with the transport's own words.
    pub fn new(reason: String) -> (error: ReplyError)
        ensures
            error.reason_text() == reason@,
    {
        ReplyError { reason }
    }

    /// What the transport said.
    pub fn reason(&self) -> (reason: &str)
        ensures
            reason@ == self.reason_text(),
    {
        self.reason.as_str()
    }
}

/// Whether `reply` can be called on every text.
pub open spec fn reply_total<R: Fn(&str) -> Result<(), ReplyError>>(reply: R) -> bool {
    forall|text: &str| #[trigger] call_requires(reply, (text,))
}

/// One incoming message: its text, who sent it, what the bot was called when
/// it came in, whether it was aimed at the bot, and the way to answer it.
/// The transport works all of this out and hands over plain values; the one
/// thing that reaches back into the transport is `reply`.
pub struct Message<R: Fn(&str) -> Result<(), ReplyError>> {
    body: String,
    directly_addressed: bool,
    source_nickname: String,
    current_nickname: Arc<String>,
    reply: R,
}

impl<R: Fn(&str) -> Result<(), ReplyError>> Message<R> {
    /// The text of the message.
    pub closed spec fn body_text(&self) -> Seq<char> {
        self.body@
    }

    /// Whether the message was aimed at the bot: sent in private, or sent to
    /// a channel and opened with the bot's name and `,` or `:`.
    pub closed spec fn directly_addressed(&self) -> bool {
        self.directly_addressed
    }

    /// The nickname of whoever sent the message.
    pub closed spec fn sender(&self) -> Seq<char> {
        self.source_nickname@
    }

    /// The bot's own nickname when the message came in.
    pub closed spec fn bot_nickname(&self) -> Seq<char> {
        self.current_nickname@
    }

    /// The way to answer the message.
    pub closed spec fn replier(&self) -> R {
        self.reply
    }
}

impl<R: Fn(&str) -> Result<(), ReplyError>> Message<R> {
    #[verifier::type_invariant]
    spec fn can_reply(self) -> bool {
        reply_total(self.reply)
    }

    /// A message made of what the transport knows of it.
    pub fn new(
        body: String,
        directly_addressed: bool,
        source_nickname: String,
        current_nickname: Arc<String>,
        reply: R,
    ) -> (message: Self)
        requires
            reply_total(reply),
        ensures
            message.body_text() == body@,
            message.directly_addressed() == directly_addressed,
            message.sender() == source_nickname@,
            message.bot_nickname() == current_nickname@,
            message.replier() == reply,
    {
        Message { body, directly_addressed, source_nickname, current_nickname, reply }
    }

    /// The text to match commands against.
    pub fn body(&self) -> (body: &str)
        ensures
            body@ == self.body_text(),
    {
        self.body.as_str()
    }

    /// Whether the message was aimed at the bot.
    pub fn is_directly_addressed(&self) -> (addressed: bool)
        ensures
            addressed == self.directly_addressed(),
    {
        self.directly_addressed
    }

    /// Sends `text` to where the message came from: one call of the
    /// message's way to answer, on this text, whose result is handed back.
    pub fn reply(&self, text: &str) -> (outcome: Result<(), ReplyError>)
        ensures
            call_ensures(self.replier(), (text,), outcome),
    {
        proof {
            use_type_invariant(self);
        }
        (self.reply)(text)
    }

    /// The nickname of whoever sent the message.
    pub fn source_nickname(&self) -> (nickname: &str)
        ensures
            nickname@ == self.sender(),
    {
        self.source_nickname.as_str()
    }

    /// The bot's own nickname when the message came in.
    pub fn current_nickname(&self) -> (nickname: Arc<String>)
        ensures
            nickname@ == self.bot_nickname(),
    {
        self.current_nickname.clone()
    }
}

} // verus!
