//! The view of one incoming message that a handler works on.

use vstd::prelude::*;
use std::sync::Arc;
use crate::inline::{inline_commands, inline_texts};
use crate::message::{Message, ReplyError};
use crate::text::texts;

verus! {

/// A text to match commands against, together with the message it came
/// from. The top-level context of a message holds the whole body; an inline
/// context holds one piece of it and shares the message.
pub struct Context<'a, R: Fn(&str) -> Result<(), ReplyError>> {
    body: &'a str,
    message: &'a Message<R>,
}

impl<'a, R: Fn(&str) -> Result<(), ReplyError>> Clone for Context<'a, R> {
    fn clone(&self) -> (copy: Self)
        ensures
            copy == *self,
    {
        Context { body: self.body, message: self.message }
    }
}

impl<'a, R: Fn(&str) -> Result<(), ReplyError>> Copy for Context<'a, R> {

}

impl<'a, R: Fn(&str) -> Result<(), ReplyError>> Context<'a, R> {
    /// The text of this context.
    pub closed spec fn body_text(&self) -> Seq<char> {
        self.body@
    }

    /// The message this context was made from.
    pub closed spec fn message(&self) -> &'a Message<R> {
        self.message
    }

    /// Whether this is the top-level context of `message`.
    pub open spec fn is_top_level_of(&self, message: &Message<R>) -> bool {
        self.message() == message && self.body_text() == message.body_text()
    }

    /// The texts of the inline contexts: none for a message aimed at the bot,
    /// else the inline commands of the body.
    pub open spec fn inline_bodies(&self) -> Seq<Seq<char>> {
        if self.message().directly_addressed() {
            Seq::empty()
        } else {
            inline_texts(self.body_text())
        }
    }

    /// The top-level context of `message`.
    pub fn new(message: &'a Message<R>) -> (context: Option<Self>)
        ensures
            context matches Some(top) && top.is_top_level_of(message),
    {
        Some(Context { body: message.body(), message })
    }

    /// The text to match commands against.
    pub fn body(&self) -> (body: &'a str)
        ensures
            body@ == self.body_text(),
    {
        self.body
    }

    /// Whether the message was aimed at the bot, in private or by its name
    /// and `,` or `:` at the start of a channel message.
    pub fn is_directly_addressed(&self) -> (addressed: bool)
        ensures
            addressed == self.message().directly_addressed(),
    {
        self.message.is_directly_addressed()
    }

    /// Sends `text` through the message, and hands back what the message
    /// made of it.
    pub fn reply(&self, text: &str) -> (outcome: Result<(), ReplyError>)
        ensures
            call_ensures(self.message().replier(), (text,), outcome),
    {
        self.message.reply(text)
    }

    /// The nickname of whoever sent the message.
    pub fn source_nickname(&self) -> (nickname: &'a str)
        ensures
            nickname@ == self.message().sender(),
    {
        self.message.source_nickname()
    }

    /// The bot's own nickname when the message came in.
    pub fn current_nickname(&self) -> (nickname: Arc<String>)
        ensures
            nickname@ == self.message().bot_nickname(),
    {
        self.message.current_nickname()
    }

    /// One context for each inline command of the body, in order, all on the
    /// message of this one. A message aimed at the bot has none.
    pub fn inline_contexts(&self) -> (contexts: Vec<Context<'a, R>>)
        ensures
            contexts@.len() == self.inline_bodies().len(),
            forall|i: int|
                0 <= i < contexts@.len() ==> (#[trigger] contexts@[i]).body_text()
                    == self.inline_bodies()[i] && contexts@[i].message() == self.message(),
            self.message().directly_addressed() ==> contexts@.len() == 0,
    {
        let mut contexts: Vec<Context<'a, R>> = Vec::new();
        if self.is_directly_addressed() {
            return contexts;
        }
        let pieces = inline_commands(self.body);
        let mut at: usize = 0;
        while at < pieces.len()
            invariant
                at <= pieces.len(),
                contexts@.len() == at,
                texts(pieces@) == self.inline_bodies(),
                forall|i: int|
                    0 <= i < at ==> (#[trigger] contexts@[i]).body_text() == self.inline_bodies()[i]
                        && contexts@[i].message() == self.message(),
            decreases pieces.len() - at,
        {
            contexts.push(Context { body: pieces[at], message: self.message });
            at += 1;
        }
        contexts
    }
}

} // verus!
