//! The registry of handlers and the three stages a message goes through.

use vstd::prelude::*;
use vstd::hash_map::StringHashMap;
use std::marker::PhantomData;
use crate::command::{parse_text, Command, CommandText};
use crate::context::Context;
use crate::flow::Flow;
use crate::message::{Message, ReplyError};
use crate::text::texts;

verus! {

/// How many contexts the inline stage looks at: the top-level one and the
/// first two inline ones.
pub const INLINE_WINDOW: usize = 3;

/// One call of a named handler.
pub ghost struct NamedCall<'a, R: Fn(&str) -> Result<(), ReplyError>> {
    /// The name the handler is registered under.
    pub name: Seq<char>,
    /// The context it was given.
    pub context: Context<'a, R>,
    /// The arguments it was given.
    pub args: Seq<Seq<char>>,
    /// What it returned.
    pub flow: Flow,
}

/// What dispatching one message did: every call of a handler, stage by
/// stage and in order, with what the handler returned.
pub ghost struct Dispatch<'a, R: Fn(&str) -> Result<(), ReplyError>> {
    /// The top-level context of the message.
    pub top: Context<'a, R>,
    /// The calls of the prefix-command stage.
    pub command: Seq<NamedCall<'a, R>>,
    /// The calls of the inline-command stage.
    pub inline: Seq<NamedCall<'a, R>>,
    /// What the fallback handlers returned: entry `i` is the answer of the
    /// handler registered as number `i`, called on the top-level context.
    pub fallback: Seq<Flow>,
}

/// Whether one of `calls` returned `Break`.
pub open spec fn stopped<'a, R: Fn(&str) -> Result<(), ReplyError>>(calls: Seq<NamedCall<'a, R>>) -> bool {
    exists|i: int| 0 <= i < calls.len() && (#[trigger] calls[i]).flow == Flow::Break
}

/// Whether `handler` can be called on every context and argument list.
pub open spec fn named_handler_total<R, N>(handler: N) -> bool where
    R: Fn(&str) -> Result<(), ReplyError>,
    N: for <'x, 'y, 'z>Fn(&'x Context<'y, R>, &'x [&'z str]) -> Flow,
 {
    forall|context: &Context<R>, args: &[&str]| #[trigger] call_requires(handler, (context, args))
}

/// Whether `handler` can be called on every context.
pub open spec fn fallback_handler_total<R, F>(handler: F) -> bool where
    R: Fn(&str) -> Result<(), ReplyError>,
    F: for <'x, 'y>Fn(&'x Context<'y, R>) -> Flow,
 {
    forall|context: &Context<R>| #[trigger] call_requires(handler, (context,))
}

/// Whether every handler of `named` can be called on every context and
/// argument list.
pub open spec fn named_handlers_total<R, N>(named: Map<Seq<char>, N>) -> bool where
    R: Fn(&str) -> Result<(), ReplyError>,
    N: for <'x, 'y, 'z>Fn(&'x Context<'y, R>, &'x [&'z str]) -> Flow,
 {
    forall|name: Seq<char>| #[trigger]
        named.contains_key(name) ==> named_handler_total::<R, N>(named[name])
}

/// Whether every handler of `fallbacks` can be called on every context.
pub open spec fn fallback_handlers_total<R, F>(fallbacks: Seq<F>) -> bool where
    R: Fn(&str) -> Result<(), ReplyError>,
    F: for <'x, 'y>Fn(&'x Context<'y, R>) -> Flow,
 {
    forall|i: int|
        0 <= i < fallbacks.len() ==> fallback_handler_total::<R, F>(#[trigger] fallbacks[i])
}

/// The texts the inline stage looks at for a message with text `body` and
/// inline commands `inline`: the body itself, then the inline commands, cut
/// off after `INLINE_WINDOW` entries.
pub open spec fn window(body: Seq<char>, inline: Seq<Seq<char>>) -> Seq<Seq<char>> {
    let all = seq![body] + inline;
    if all.len() <= INLINE_WINDOW {
        all
    } else {
        all.take(INLINE_WINDOW as int)
    }
}

/// The handlers of a bot: one for each command name, and a chain of
/// fallbacks that see what no command stopped.
#[verifier::reject_recursive_types(R)]
#[verifier::reject_recursive_types(N)]
#[verifier::reject_recursive_types(F)]
pub struct CommandRegistry<R, N, F> where R: Fn(&str) -> Result<(), ReplyError> {
    command_prefix: String,
    named_handlers: StringHashMap<N>,
    fallback_handlers: Vec<F>,
    replies: PhantomData<R>,
}

impl<R, N, F> CommandRegistry<R, N, F> where
    R: Fn(&str) -> Result<(), ReplyError>,
    N: for <'x, 'y, 'z>Fn(&'x Context<'y, R>, &'x [&'z str]) -> Flow,
    F: for <'x, 'y>Fn(&'x Context<'y, R>) -> Flow,
 {
    /// The prefix that opens a command.
    pub closed spec fn prefix(&self) -> Seq<char> {
        self.command_prefix@
    }

    /// The named handlers, by name.
    pub closed spec fn named(&self) -> Map<Seq<char>, N> {
        self.named_handlers@
    }

    /// The fallback handlers, in the order they were registered.
    pub closed spec fn fallbacks(&self) -> Seq<F> {
        self.fallback_handlers@
    }

    /// The prefix is not empty, and every handler can be called on every
    /// input.
    pub open spec fn wf(&self) -> bool {
        &&& self.prefix().len() > 0
        &&& named_handlers_total::<R, N>(self.named())
        &&& fallback_handlers_total::<R, F>(self.fallbacks())
    }

    /// The command that `body` asks for, where it names a registered handler.
    pub open spec fn target(&self, body: Seq<char>) -> Option<CommandText> {
        match parse_text(self.prefix(), body) {
            Some(command) => if self.named().contains_key(command.name) {
                Some(command)
            } else {
                None
            },
            None => None,
        }
    }

    /// Those of `bodies` that ask for a registered handler, in order.
    pub open spec fn attempted(&self, bodies: Seq<Seq<char>>) -> Seq<Seq<char>>
        decreases bodies.len(),
    {
        if bodies.len() == 0 {
            Seq::empty()
        } else if self.target(bodies.last()) is Some {
            self.attempted(bodies.drop_last()).push(bodies.last())
        } else {
            self.attempted(bodies.drop_last())
        }
    }

    /// Whether `call` is a call that dispatching `message` makes: on a
    /// context of that message whose text asks for the handler called, with
    /// the arguments that the text gives, and with an answer of that handler.
    pub open spec fn invoked(&self, message: &Message<R>, call: NamedCall<R>) -> bool {
        &&& call.context.message() == message
        &&& self.target(call.context.body_text()) == Some(
            CommandText { name: call.name, args: call.args },
        )
        &&& exists|args: &[&str]|
            texts(args@) == call.args && #[trigger] call_ensures(
                self.named()[call.name],
                (&call.context, args),
                call.flow,
            )
    }

    /// The prefix-command stage: one call where the message asks for a
    /// registered handler, on the top-level context; else none.
    pub open spec fn command_stage(&self, message: &Message<R>, trace: Dispatch<R>) -> bool {
        if self.target(message.body_text()) is Some {
            &&& trace.command.len() == 1
            &&& trace.command[0].context == trace.top
            &&& self.invoked(message, trace.command[0])
        } else {
            trace.command.len() == 0
        }
    }

    /// The inline-command stage: one call for each text of the window that
    /// asks for a registered handler, in the order of the window.
    pub open spec fn inline_stage(&self, message: &Message<R>, trace: Dispatch<R>) -> bool {
        let looked_at = self.attempted(window(message.body_text(), trace.top.inline_bodies()));
        &&& trace.inline.len() == looked_at.len()
        &&& forall|i: int|
            0 <= i < trace.inline.len() ==> (#[trigger] trace.inline[i]).context.body_text()
                == looked_at[i] && self.invoked(message, trace.inline[i])
    }

    /// The fallback stage: the handlers are called in the order they were
    /// registered, each on the top-level context, up to and including the
    /// first that returns `Break`.
    pub open spec fn fallback_stage(&self, trace: Dispatch<R>) -> bool {
        &&& trace.fallback.len() <= self.fallbacks().len()
        &&& forall|i: int|
            0 <= i < trace.fallback.len() ==> call_ensures(
                self.fallbacks()[i],
                (&trace.top,),
                #[trigger] trace.fallback[i],
            )
        &&& forall|i: int|
            0 <= i < trace.fallback.len() - 1 ==> #[trigger] trace.fallback[i] == Flow::Continue
        &&& trace.fallback.len() < self.fallbacks().len() ==> trace.fallback.len() > 0
            && trace.fallback.last() == Flow::Break
    }

    /// What dispatching `message` does, stage by stage: a stage runs only if
    /// no call of an earlier stage returned `Break`.
    pub open spec fn dispatches(&self, message: &Message<R>, trace: Dispatch<R>) -> bool {
        &&& trace.top.is_top_level_of(message)
        &&& self.command_stage(message, trace)
        &&& if stopped(trace.command) {
            trace.inline.len() == 0 && trace.fallback.len() == 0
        } else {
            &&& self.inline_stage(message, trace)
            &&& if stopped(trace.inline) {
                trace.fallback.len() == 0
            } else {
                self.fallback_stage(trace)
            }
        }
    }

    /// A registry without handlers.
    pub fn new(command_prefix: &str) -> (registry: Self)
        requires
            command_prefix@.len() > 0,
        ensures
            registry.wf(),
            registry.prefix() == command_prefix@,
            registry.named() == Map::<Seq<char>, N>::empty(),
            registry.fallbacks() == Seq::<F>::empty(),
    {
        Self {
            command_prefix: command_prefix.to_owned(),
            named_handlers: StringHashMap::new(),
            fallback_handlers: Vec::new(),
            replies: PhantomData,
        }
    }

    /// Registers `handler` under `name`, in place of any handler that was
    /// registered under that name before.
    pub fn set_named_handler(&mut self, name: &str, handler: N)
        requires
            old(self).wf(),
            named_handler_total::<R, N>(handler),
        ensures
            final(self).wf(),
            final(self).named() == old(self).named().insert(name@, handler),
            final(self).named()[name@] == handler,
            final(self).prefix() == old(self).prefix(),
            final(self).fallbacks() == old(self).fallbacks(),
    {
        self.named_handlers.insert(name.to_owned(), handler);
        proof {
            assert forall|other: Seq<char>| #[trigger]
                self.named().contains_key(other) implies named_handler_total::<R, N>(
                self.named()[other],
            ) by {
                if other != name@ {
                    assert(old(self).named().contains_key(other));
                }
            }
        }
    }

    /// Registers `handler` behind the fallback handlers that are there.
    pub fn add_fallback_handler(&mut self, handler: F)
        requires
            old(self).wf(),
            fallback_handler_total::<R, F>(handler),
        ensures
            final(self).wf(),
            final(self).fallbacks() == old(self).fallbacks().push(handler),
            final(self).prefix() == old(self).prefix(),
            final(self).named() == old(self).named(),
    {
        self.fallback_handlers.push(handler);
        proof {
            assert forall|i: int| 0 <= i < self.fallbacks().len() implies fallback_handler_total::<
                R,
                F,
            >(#[trigger] self.fallbacks()[i]) by {
                if i < old(self).fallbacks().len() {
                    assert(self.fallbacks()[i] == old(self).fallbacks()[i]);
                }
            }
        }
    }

    /// Parses the text of `context` and calls the handler it asks for, if
    /// one is registered.
    fn attempt<'a>(&self, context: &Context<'a, R>) -> (done: (
        Option<Flow>,
        Ghost<NamedCall<'a, R>>,
    ))
        requires
            self.wf(),
        ensures
            match done.0 {
                Some(flow) => {
                    &&& done.1@.flow == flow
                    &&& done.1@.context == *context
                    &&& self.invoked(context.message(), done.1@)
                },
                None => self.target(context.body_text()) is None,
            },
    {
        let ghost mut call = NamedCall {
            name: Seq::empty(),
            context: *context,
            args: Seq::empty(),
            flow: Flow::Continue,
        };
        if let Some(command) = Command::parse(self.command_prefix.as_str(), context.body()) {
            if let Some(handler) = self.named_handlers.get(command.name()) {
                let args = command.args();
                let flow = handler(context, args);
                proof {
                    call =
                    NamedCall { name: command@.name, context: *context, args: command@.args, flow };
                    assert(call_ensures(self.named()[call.name], (&call.context, args), call.flow));
                }
                return (Some(flow), Ghost(call));
            }
        }
        (None, Ghost(call))
    }

    /// The prefix-command stage: where the text of `context` is a command
    /// with a registered handler, that handler is called, once, and its
    /// answer is the answer of the stage. Where the text does not open with
    /// the prefix, is the prefix alone, or names no registered handler,
    /// nothing is called and the answer is `Continue`.
    pub fn execute_commands<'a>(&self, context: &Context<'a, R>) -> (done: (
        Flow,
        Ghost<Seq<NamedCall<'a, R>>>,
    ))
        requires
            self.wf(),
        ensures
            done.0 == Flow::Break <==> stopped(done.1@),
            done.1@.len() == 1 ==> done.0 == done.1@[0].flow,
            done.1@.len() == 0 ==> done.0 == Flow::Continue,
            !self.prefix().is_prefix_of(context.body_text()) ==> done.0 == Flow::Continue
                && done.1@.len() == 0,
            context.body_text() == self.prefix() ==> done.0 == Flow::Continue && done.1@.len()
                == 0,
            if self.target(context.body_text()) is Some {
                &&& done.1@.len() == 1
                &&& done.1@[0].context == *context
                &&& self.invoked(context.message(), done.1@[0])
            } else {
                done.1@.len() == 0
            },
    {
        let (answer, call) = self.attempt(context);
        match answer {
            Some(flow) => {
                let ghost calls = seq![call@];
                (flow, Ghost(calls))
            },
            None => (Flow::Continue, Ghost(Seq::empty())),
        }
    }

    /// The inline-command stage: the top-level context and the inline
    /// contexts behind it, `INLINE_WINDOW` of them at most, are each looked
    /// at, in that order, and for each whose text is a command with a
    /// registered handler that handler is called. A `Break` does not end the
    /// stage; it is the answer of the stage where any call gave it.
    pub fn execute_inline_commands<'a>(&self, context: &Context<'a, R>) -> (done: (
        Flow,
        Ghost<Seq<NamedCall<'a, R>>>,
    ))
        requires
            self.wf(),
        ensures
            done.0 == Flow::Break <==> stopped(done.1@),
            done.1@.len() <= INLINE_WINDOW,
            ({
                let looked_at = self.attempted(
                    window(context.body_text(), context.inline_bodies()),
                );
                &&& done.1@.len() == looked_at.len()
                &&& forall|i: int|
                    0 <= i < done.1@.len() ==> (#[trigger] done.1@[i]).context.body_text()
                        == looked_at[i] && self.invoked(context.message(), done.1@[i])
            }),
    {
        let mut flow = Flow::Continue;
        let inline = context.inline_contexts();
        let ghost bodies = window(context.body_text(), context.inline_bodies());
        let ghost mut calls: Seq<NamedCall<'a, R>> = Seq::empty();
        let mut at: usize = 0;
        while at < INLINE_WINDOW && at <= inline.len()
            invariant
                self.wf(),
                at <= INLINE_WINDOW,
                at <= inline.len() + 1,
                at <= bodies.len(),
                bodies == window(context.body_text(), context.inline_bodies()),
                inline@.len() == context.inline_bodies().len(),
                forall|i: int|
                    0 <= i < inline@.len() ==> (#[trigger] inline@[i]).body_text()
                        == context.inline_bodies()[i] && inline@[i].message() == context.message(),
                flow == Flow::Break <==> stopped(calls),
                calls.len() <= at,
                calls.len() == self.attempted(bodies.take(at as int)).len(),
                forall|i: int|
                    0 <= i < calls.len() ==> (#[trigger] calls[i]).context.body_text()
                        == self.attempted(bodies.take(at as int))[i] && self.invoked(
                        context.message(),
                        calls[i],
                    ),
            decreases INLINE_WINDOW - at,
        {
            let current = if at == 0 {
                *context
            } else {
                inline[at - 1]
            };
            assert(bodies[at as int] == current.body_text());
            assert(bodies.take(at + 1).drop_last() =~= bodies.take(at as int));
            let (answer, call) = self.attempt(&current);
            match answer {
                Some(answered) => {
                    proof {
                        let before = calls;
                        calls = calls.push(call@);
                        assert(forall|i: int| 0 <= i < before.len() ==> calls[i] == before[i]);
                        assert(calls[before.len() as int] == call@);
                        if stopped(before) {
                            let k = choose|k: int|
                                0 <= k < before.len() && (#[trigger] before[k]).flow == Flow::Break;
                            assert(calls[k].flow == Flow::Break);
                        }
                    }
                    if answered == Flow::Break {
                        flow = Flow::Break;
                    }
                },
                None => {},
            }
            at += 1;
        }
        assert(bodies.take(at as int) =~= bodies);
        (flow, Ghost(calls))
    }

    /// The fallback stage: the fallback handlers are called on `context` in
    /// the order they were registered, each once, up to and including the
    /// first that answers `Break`; where none does, all of them are called.
    pub fn handle_fallback<'a>(&self, context: &Context<'a, R>) -> (flows: Ghost<Seq<Flow>>)
        requires
            self.wf(),
        ensures
            flows@.len() <= self.fallbacks().len(),
            forall|i: int|
                0 <= i < flows@.len() ==> call_ensures(
                    self.fallbacks()[i],
                    (context,),
                    #[trigger] flows@[i],
                ),
            forall|i: int| 0 <= i < flows@.len() - 1 ==> #[trigger] flows@[i] == Flow::Continue,
            flows@.len() < self.fallbacks().len() ==> flows@.len() > 0 && flows@.last()
                == Flow::Break,
            (forall|i: int| 0 <= i < flows@.len() ==> #[trigger] flows@[i] == Flow::Continue)
                ==> flows@.len() == self.fallbacks().len(),
    {
        let ghost mut flows: Seq<Flow> = Seq::empty();
        let mut at: usize = 0;
        while at < self.fallback_handlers.len()
            invariant
                self.wf(),
                at <= self.fallbacks().len(),
                flows.len() == at,
                forall|i: int|
                    0 <= i < flows.len() ==> call_ensures(
                        self.fallbacks()[i],
                        (context,),
                        #[trigger] flows[i],
                    ),
                forall|i: int| 0 <= i < flows.len() ==> #[trigger] flows[i] == Flow::Continue,
            decreases self.fallbacks().len() - at,
        {
            let handler = &self.fallback_handlers[at];
            let flow = handler(context);
            proof {
                flows = flows.push(flow);
            }
            if flow == Flow::Break {
                return Ghost(flows);
            }
            at += 1;
        }
        Ghost(flows)
    }

    /// Dispatches `message`: first the command it opens with, then the
    /// commands it holds in braces, then the fallback handlers. A `Break`
    /// from a handler keeps the later stages from running; within the inline
    /// stage every context of the window is still looked at, and within the
    /// fallback stage the handlers behind the one that broke are not called.
    pub fn handle_message<'a>(&self, message: &'a Message<R>) -> (trace: Ghost<Dispatch<'a, R>>)
        requires
            self.wf(),
        ensures
            self.dispatches(message, trace@),
            trace@.command.len() <= 1,
            trace@.inline.len() <= INLINE_WINDOW,
            !self.prefix().is_prefix_of(message.body_text()) || message.body_text()
                == self.prefix() ==> trace@.command.len() == 0,
            stopped(trace@.command) ==> trace@.inline.len() == 0 && trace@.fallback.len() == 0,
            !stopped(trace@.command) ==> trace@.inline.len() == self.attempted(
                window(message.body_text(), trace@.top.inline_bodies()),
            ).len(),
            stopped(trace@.inline) ==> trace@.fallback.len() == 0,
            !stopped(trace@.command) && !stopped(trace@.inline) ==> {
                &&& forall|i: int|
                    0 <= i < trace@.fallback.len() - 1 ==> #[trigger] trace@.fallback[i]
                        == Flow::Continue
                &&& trace@.fallback.len() == self.fallbacks().len() || (trace@.fallback.len() > 0
                    && trace@.fallback.last() == Flow::Break)
            },
    {
        let context = match Context::new(message) {
            Some(context) => context,
            None => {
                // Every message has a top-level context.
                return Ghost(
                    Dispatch {
                        top: arbitrary(),
                        command: Seq::empty(),
                        inline: Seq::empty(),
                        fallback: Seq::empty(),
                    },
                );
            },
        };
        let (flow, command) = self.execute_commands(&context);
        if flow == Flow::Break {
            return Ghost(
                Dispatch {
                    top: context,
                    command: command@,
                    inline: Seq::empty(),
                    fallback: Seq::empty(),
                },
            );
        }
        let (flow, inline) = self.execute_inline_commands(&context);
        if flow == Flow::Break {
            return Ghost(
                Dispatch {
                    top: context,
                    command: command@,
                    inline: inline@,
                    fallback: Seq::empty(),
                },
            );
        }
        let fallback = self.handle_fallback(&context);
        Ghost(Dispatch { top: context, command: command@, inline: inline@, fallback: fallback@ })
    }
}

/// Of two handlers registered under one name, one after the other, only the
/// later one is there: the registry is as if the earlier one had never been
/// registered, and a command of that name reaches the later one.
pub proof fn lemma_later_registration_wins<R, N, F>(
    before: CommandRegistry<R, N, F>,
    between: CommandRegistry<R, N, F>,
    after: CommandRegistry<R, N, F>,
    name: Seq<char>,
    first: N,
    second: N,
) where
    R: Fn(&str) -> Result<(), ReplyError>,
    N: for <'x, 'y, 'z>Fn(&'x Context<'y, R>, &'x [&'z str]) -> Flow,
    F: for <'x, 'y>Fn(&'x Context<'y, R>) -> Flow,

    requires
        between.named() == before.named().insert(name, first),
        after.named() == between.named().insert(name, second),
    ensures
        after.named() == before.named().insert(name, second),
        after.named().contains_key(name),
        after.named()[name] == second,
{
    assert(before.named().insert(name, first).insert(name, second) =~= before.named().insert(
        name,
        second,
    ));
}

} // verus!
