use std::cell::RefCell;
use std::rc::Rc;
use std::sync::Arc;

use playbot_commands::command_registry::{CommandRegistry, INLINE_WINDOW};
use playbot_commands::context::Context;
use playbot_commands::flow::Flow;
use playbot_commands::message::{Message, ReplyError};
use playbot_commands::module::help::{display_help, help_handler, HELP_COMMAND, HELP_USAGE};

type Reply = Box<dyn Fn(&str) -> Result<(), ReplyError>>;
type Note = Message<Reply>;
type Sent = Rc<RefCell<Vec<String>>>;

fn outbox() -> Sent {
    Rc::new(RefCell::new(Vec::new()))
}

fn note(body: &str, addressed: bool, sent: &Sent) -> Note {
    let sent = sent.clone();
    Message::new(
        body.to_string(),
        addressed,
        "alice".to_string(),
        Arc::new("playbot".to_string()),
        Box::new(move |text: &str| {
            sent.borrow_mut().push(text.to_string());
            Ok(())
        }),
    )
}

fn note_on_dead_line(body: &str) -> Note {
    Message::new(
        body.to_string(),
        false,
        "alice".to_string(),
        Arc::new("playbot".to_string()),
        Box::new(|_text: &str| Err(ReplyError::new("connection lost".to_string()))),
    )
}

type Named = Box<dyn for<'x, 'y, 'z> Fn(&'x Context<'y, Reply>, &'x [&'z str]) -> Flow>;
type Fallback = Box<dyn for<'x, 'y> Fn(&'x Context<'y, Reply>) -> Flow>;
type Registry = CommandRegistry<Reply, Named, Fallback>;
type Log = Rc<RefCell<Vec<String>>>;

fn named(log: &Log, tag: &str, flow: Flow) -> Named {
    let log = log.clone();
    let tag = tag.to_string();
    Box::new(move |context: &Context<Reply>, args: &[&str]| {
        log.borrow_mut().push(format!("{}({})[{}]", tag, context.body(), args.join(",")));
        flow
    })
}

fn fallback(log: &Log, tag: &str, flow: Flow) -> Fallback {
    let log = log.clone();
    let tag = tag.to_string();
    Box::new(move |context: &Context<Reply>| {
        log.borrow_mut().push(format!("{}({})", tag, context.body()));
        flow
    })
}

fn log() -> Log {
    Rc::new(RefCell::new(Vec::new()))
}

fn seen(log: &Log) -> Vec<String> {
    log.borrow().clone()
}

fn lines(expected: &[&str]) -> Vec<String> {
    expected.iter().map(|line| line.to_string()).collect()
}

#[test]
fn flow_has_two_values() {
    assert_eq!(Flow::Break, Flow::Break);
    assert_eq!(Flow::Continue, Flow::Continue);
    assert_ne!(Flow::Break, Flow::Continue);
    let copy = Flow::Break;
    assert_eq!(copy.clone(), Flow::Break);
}

#[test]
fn nothing_registered_nothing_happens() {
    let registry: Registry = CommandRegistry::new("!");
    let sent = outbox();
    registry.handle_message(&note("!foo {!bar}", false, &sent));
    assert!(sent.borrow().is_empty());
}

#[test]
fn command_break_ends_the_dispatch() {
    let log = log();
    let mut registry: Registry = CommandRegistry::new("!");
    registry.set_named_handler("foo", named(&log, "foo", Flow::Break));
    registry.set_named_handler("a", named(&log, "a", Flow::Continue));
    registry.add_fallback_handler(fallback(&log, "f0", Flow::Continue));
    registry.handle_message(&note("!foo x {!a} y", false, &outbox()));
    assert_eq!(seen(&log), lines(&["foo(!foo x {!a} y)[x,{!a},y]"]));
}

#[test]
fn command_continue_is_looked_at_again_in_the_window() {
    let log = log();
    let mut registry: Registry = CommandRegistry::new("!");
    registry.set_named_handler("foo", named(&log, "foo", Flow::Continue));
    registry.add_fallback_handler(fallback(&log, "f0", Flow::Continue));
    registry.handle_message(&note("!foo x", false, &outbox()));
    assert_eq!(seen(&log), lines(&["foo(!foo x)[x]", "foo(!foo x)[x]", "f0(!foo x)"]));
}

#[test]
fn inline_break_keeps_fallbacks_out_but_not_the_window() {
    let log = log();
    let mut registry: Registry = CommandRegistry::new("!");
    registry.set_named_handler("a", named(&log, "a", Flow::Break));
    registry.set_named_handler("b", named(&log, "b", Flow::Continue));
    registry.add_fallback_handler(fallback(&log, "f0", Flow::Continue));
    registry.handle_message(&note("see {!a 1} and {!b 2}", false, &outbox()));
    assert_eq!(seen(&log), lines(&["a(!a 1)[1]", "b(!b 2)[2]"]));
}

#[test]
fn inline_window_holds_two_inline_contexts() {
    let log = log();
    let mut registry: Registry = CommandRegistry::new("!");
    registry.set_named_handler("a", named(&log, "a", Flow::Continue));
    registry.set_named_handler("b", named(&log, "b", Flow::Continue));
    registry.set_named_handler("c", named(&log, "c", Flow::Break));
    registry.add_fallback_handler(fallback(&log, "f0", Flow::Continue));
    let body = "hello {!a} world {!b} and {!c} too";
    registry.handle_message(&note(body, false, &outbox()));
    assert_eq!(seen(&log), lines(&["a(!a)[]", "b(!b)[]", &format!("f0({})", body)]));
    assert_eq!(INLINE_WINDOW, 3);
}

#[test]
fn inline_window_starts_with_the_top_level_context() {
    let log = log();
    let mut registry: Registry = CommandRegistry::new("!");
    registry.set_named_handler("foo", named(&log, "foo", Flow::Continue));
    registry.set_named_handler("a", named(&log, "a", Flow::Continue));
    registry.set_named_handler("b", named(&log, "b", Flow::Continue));
    registry.set_named_handler("c", named(&log, "c", Flow::Continue));
    let body = "!foo {!a} {!b} {!c}";
    registry.handle_message(&note(body, false, &outbox()));
    assert_eq!(
        seen(&log),
        lines(&[
            "foo(!foo {!a} {!b} {!c})[{!a},{!b},{!c}]",
            "foo(!foo {!a} {!b} {!c})[{!a},{!b},{!c}]",
            "a(!a)[]",
            "b(!b)[]",
        ])
    );
}

#[test]
fn inline_window_counts_contexts_not_matches() {
    let log = log();
    let mut registry: Registry = CommandRegistry::new("!");
    registry.set_named_handler("c", named(&log, "c", Flow::Break));
    registry.handle_message(&note("{x} {!unknown} {!c}", false, &outbox()));
    assert_eq!(seen(&log), Vec::<String>::new());
    registry.handle_message(&note("{x} {!c}", false, &outbox()));
    assert_eq!(seen(&log), lines(&["c(!c)[]"]));
}

#[test]
fn addressed_message_runs_no_inline_command() {
    let log = log();
    let mut registry: Registry = CommandRegistry::new("!");
    registry.set_named_handler("a", named(&log, "a", Flow::Break));
    registry.add_fallback_handler(fallback(&log, "f0", Flow::Continue));
    registry.handle_message(&note("look {!a}", true, &outbox()));
    assert_eq!(seen(&log), lines(&["f0(look {!a})"]));
}

#[test]
fn fallbacks_run_in_order_until_break() {
    let log = log();
    let mut registry: Registry = CommandRegistry::new("!");
    registry.add_fallback_handler(fallback(&log, "f0", Flow::Continue));
    registry.add_fallback_handler(fallback(&log, "f1", Flow::Break));
    registry.add_fallback_handler(fallback(&log, "f2", Flow::Continue));
    registry.handle_message(&note("just talking", false, &outbox()));
    assert_eq!(seen(&log), lines(&["f0(just talking)", "f1(just talking)"]));
}

#[test]
fn fallbacks_all_run_once_without_break() {
    let log = log();
    let mut registry: Registry = CommandRegistry::new("!");
    registry.add_fallback_handler(fallback(&log, "f0", Flow::Continue));
    registry.add_fallback_handler(fallback(&log, "f1", Flow::Continue));
    registry.add_fallback_handler(fallback(&log, "f2", Flow::Continue));
    registry.handle_message(&note("!unknown x", false, &outbox()));
    assert_eq!(seen(&log), lines(&["f0(!unknown x)", "f1(!unknown x)", "f2(!unknown x)"]));
}

#[test]
fn later_registration_replaces_the_earlier() {
    let log = log();
    let mut registry: Registry = CommandRegistry::new("!");
    registry.set_named_handler("foo", named(&log, "first", Flow::Break));
    registry.set_named_handler("foo", named(&log, "second", Flow::Break));
    registry.handle_message(&note("!foo", false, &outbox()));
    assert_eq!(seen(&log), lines(&["second(!foo)[]"]));
}

#[test]
fn names_are_case_sensitive() {
    let log = log();
    let mut registry: Registry = CommandRegistry::new("!");
    registry.set_named_handler("foo", named(&log, "foo", Flow::Break));
    registry.add_fallback_handler(fallback(&log, "f0", Flow::Continue));
    registry.handle_message(&note("!Foo", false, &outbox()));
    assert_eq!(seen(&log), lines(&["f0(!Foo)"]));
}

#[test]
fn prefix_of_the_registry_is_used() {
    let log = log();
    let mut registry: Registry = CommandRegistry::new("bot:");
    registry.set_named_handler("foo", named(&log, "foo", Flow::Break));
    registry.handle_message(&note("!foo", false, &outbox()));
    registry.handle_message(&note("say {bot:foo a  b}", false, &outbox()));
    assert_eq!(seen(&log), lines(&["foo(bot:foo a  b)[a,b]"]));
}

#[test]
fn handler_replies_through_its_context() {
    let mut registry: Registry = CommandRegistry::new("!");
    registry.set_named_handler(
        "echo",
        Box::new(|context: &Context<Reply>, args: &[&str]| {
            match context.reply(&args.join(" ")) {
                Ok(()) => Flow::Break,
                Err(_) => Flow::Continue,
            }
        }),
    );
    let sent = outbox();
    registry.handle_message(&note("well {!echo a b} then", false, &sent));
    assert_eq!(*sent.borrow(), lines(&["a b"]));
}

#[test]
fn help_answers_with_the_usage_and_breaks() {
    let log = log();
    let mut registry: Registry = CommandRegistry::new("!");
    registry.set_named_handler(HELP_COMMAND, Box::new(help_handler::<Reply>));
    registry.add_fallback_handler(fallback(&log, "f0", Flow::Continue));
    let sent = outbox();
    registry.handle_message(&note("!help me", false, &sent));
    assert_eq!(*sent.borrow(), lines(&[HELP_USAGE]));
    assert_eq!(seen(&log), Vec::<String>::new());
}

#[test]
fn help_breaks_when_the_reply_fails() {
    let note = note_on_dead_line("!help");
    let context = Context::new(&note).unwrap();
    assert!(display_help(&context).is_err());
    assert_eq!(help_handler(&context, &[]), Flow::Break);
}

#[test]
fn help_usage_text() {
    assert_eq!(HELP_COMMAND, "help");
    assert_eq!(
        HELP_USAGE,
        "Usage help can be found here: https://github.com/panicbit/playbot_ng/tree/master/README.md"
    );
    let sent = outbox();
    let note = note("anything", false, &sent);
    let context = Context::new(&note).unwrap();
    assert!(display_help(&context).is_ok());
    assert_eq!(*sent.borrow(), lines(&[HELP_USAGE]));
}

#[test]
fn command_stage_answers_with_the_handler() {
    let log = log();
    let mut registry: Registry = CommandRegistry::new("!");
    registry.set_named_handler("stop", named(&log, "stop", Flow::Break));
    registry.set_named_handler("go", named(&log, "go", Flow::Continue));
    let stop = note("!stop now", false, &outbox());
    let go = note("!go on", false, &outbox());
    assert_eq!(registry.execute_commands(&Context::new(&stop).unwrap()).0, Flow::Break);
    assert_eq!(registry.execute_commands(&Context::new(&go).unwrap()).0, Flow::Continue);
    assert_eq!(seen(&log), lines(&["stop(!stop now)[now]", "go(!go on)[on]"]));
}

#[test]
fn command_stage_without_prefix_calls_nothing() {
    let log = log();
    let mut registry: Registry = CommandRegistry::new("!");
    registry.set_named_handler("stop", named(&log, "stop", Flow::Break));
    registry.add_fallback_handler(fallback(&log, "f0", Flow::Break));
    let plain = note("stop {!stop}", false, &outbox());
    assert_eq!(registry.execute_commands(&Context::new(&plain).unwrap()).0, Flow::Continue);
    assert_eq!(seen(&log), Vec::<String>::new());
}

#[test]
fn command_stage_with_prefix_alone_calls_nothing() {
    let log = log();
    let mut registry: Registry = CommandRegistry::new("!");
    registry.set_named_handler("", named(&log, "empty", Flow::Break));
    registry.set_named_handler("!", named(&log, "bang", Flow::Break));
    let bare = note("!", false, &outbox());
    assert_eq!(registry.execute_commands(&Context::new(&bare).unwrap()).0, Flow::Continue);
    registry.handle_message(&bare);
    assert_eq!(seen(&log), Vec::<String>::new());
}

#[test]
fn inline_stage_answers_break_where_any_call_did() {
    let log = log();
    let mut registry: Registry = CommandRegistry::new("!");
    registry.set_named_handler("a", named(&log, "a", Flow::Break));
    registry.set_named_handler("b", named(&log, "b", Flow::Continue));
    let first = note("{!a} {!b}", false, &outbox());
    let none = note("{!b} {!b}", false, &outbox());
    let aimed = note("{!a} {!b}", true, &outbox());
    assert_eq!(registry.execute_inline_commands(&Context::new(&first).unwrap()).0, Flow::Break);
    assert_eq!(registry.execute_inline_commands(&Context::new(&none).unwrap()).0, Flow::Continue);
    assert_eq!(registry.execute_inline_commands(&Context::new(&aimed).unwrap()).0, Flow::Continue);
    assert_eq!(seen(&log), lines(&["a(!a)[]", "b(!b)[]", "b(!b)[]", "b(!b)[]"]));
}

#[test]
fn fallback_stage_stops_behind_the_first_break() {
    let log = log();
    let mut registry: Registry = CommandRegistry::new("!");
    registry.set_named_handler("x", named(&log, "x", Flow::Break));
    registry.add_fallback_handler(fallback(&log, "f0", Flow::Continue));
    registry.add_fallback_handler(fallback(&log, "f1", Flow::Continue));
    registry.add_fallback_handler(fallback(&log, "f2", Flow::Break));
    registry.add_fallback_handler(fallback(&log, "f3", Flow::Break));
    let message = note("!x", false, &outbox());
    registry.handle_fallback(&Context::new(&message).unwrap());
    assert_eq!(seen(&log), lines(&["f0(!x)", "f1(!x)", "f2(!x)"]));
}
