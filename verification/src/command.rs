//! The parser for prefixed commands: `<prefix><name>[ <arg> ...]`.

use vstd::prelude::*;
use vstd::string::StrSliceExecFns;
use crate::text::{chars_of, char_is_whitespace, has_prefix, is_whitespace, texts};

verus! {

/// What a command says: its name and its argument tokens, in order.
pub ghost struct CommandText {
    pub name: Seq<char>,
    pub args: Seq<Seq<char>>,
}

/// The length of the longest whitespace-free prefix of `s`.
pub open spec fn word_len(s: Seq<char>) -> nat
    decreases s.len(),
{
    if s.len() == 0 || is_whitespace(s[0]) {
        0
    } else {
        1 + word_len(s.drop_first())
    }
}

/// The maximal whitespace-free runs of `s`, in order.
pub open spec fn tokens(s: Seq<char>) -> Seq<Seq<char>>
    decreases s.len(),
{
    if s.len() == 0 {
        Seq::empty()
    } else if is_whitespace(s[0]) {
        tokens(s.drop_first())
    } else {
        proof {
            lemma_word_len(s);
        }
        seq![s.take(word_len(s) as int)] + tokens(s.skip(word_len(s) as int))
    }
}

/// The command that `body` holds under `prefix`: the body is the prefix, then
/// at once a name, then the arguments. `None` where the body does not begin
/// with the prefix or no name follows it.
pub open spec fn parse_text(prefix: Seq<char>, body: Seq<char>) -> Option<CommandText> {
    if !prefix.is_prefix_of(body) {
        None
    } else {
        let rest = body.skip(prefix.len() as int);
        let n = word_len(rest) as int;
        if n == 0 {
            None
        } else {
            Some(CommandText { name: rest.take(n), args: tokens(rest.skip(n)) })
        }
    }
}

/// `word_len(s)` is where the first whitespace of `s` stands, or the length
/// of `s` where it has none.
pub proof fn lemma_word_len(s: Seq<char>)
    ensures
        word_len(s) <= s.len(),
        forall|i: int| 0 <= i < word_len(s) ==> !is_whitespace(#[trigger] s[i]),
        word_len(s) < s.len() ==> is_whitespace(s[word_len(s) as int]),
        s.len() > 0 && !is_whitespace(s[0]) ==> word_len(s) >= 1,
    decreases s.len(),
{
    if s.len() == 0 || is_whitespace(s[0]) {
    } else {
        let t = s.drop_first();
        lemma_word_len(t);
        assert forall|i: int| 0 <= i < word_len(s) implies !is_whitespace(#[trigger] s[i]) by {
            if i > 0 {
                assert(s[i] == t[i - 1]);
            }
        }
    }
}

/// A whitespace-free run that ends at whitespace or at the end is the word.
pub proof fn lemma_word_len_is(s: Seq<char>, m: int)
    requires
        0 <= m <= s.len(),
        forall|i: int| 0 <= i < m ==> !is_whitespace(#[trigger] s[i]),
        m < s.len() ==> is_whitespace(s[m]),
    ensures
        word_len(s) == m,
    decreases m,
{
    if m > 0 {
        lemma_word_len_is(s.drop_first(), m - 1);
    }
}

/// Whether `t` is a word: not empty, and free of whitespace.
pub open spec fn is_word(t: Seq<char>) -> bool {
    t.len() > 0 && forall|i: int| 0 <= i < t.len() ==> !is_whitespace(#[trigger] t[i])
}

/// Every token is a word: none is empty, and none holds whitespace.
pub proof fn lemma_tokens_are_words(s: Seq<char>)
    ensures
        forall|k: int| 0 <= k < tokens(s).len() ==> is_word(#[trigger] tokens(s)[k]),
    decreases s.len(),
{
    if s.len() == 0 {
    } else if is_whitespace(s[0]) {
        lemma_tokens_are_words(s.drop_first());
        assert(tokens(s) == tokens(s.drop_first()));
    } else {
        lemma_word_len(s);
        let n = word_len(s) as int;
        let rest = tokens(s.skip(n));
        lemma_tokens_are_words(s.skip(n));
        assert(tokens(s) == seq![s.take(n)] + rest);
        assert forall|k: int| 0 <= k < tokens(s).len() implies is_word(#[trigger] tokens(s)[k]) by {
            if k == 0 {
                assert(is_word(s.take(n)));
            } else {
                assert(tokens(s)[k] == rest[k - 1]);
            }
        }
    }
}

/// A parsed command: its name and its argument tokens, all slices of the body
/// it was parsed from.
pub struct Command<'a> {
    name: &'a str,
    args: Vec<&'a str>,
}

impl<'a> View for Command<'a> {
    type V = CommandText;

    closed spec fn view(&self) -> CommandText {
        CommandText { name: self.name@, args: texts(self.args@) }
    }
}

/// The index at which the word that starts at `from` ends.
fn word_end(chars: &Vec<char>, from: usize) -> (end: usize)
    requires
        from <= chars.len(),
    ensures
        from <= end <= chars.len(),
        end - from == word_len(chars@.skip(from as int)),
{
    let mut end: usize = from;
    while end < chars.len() && !char_is_whitespace(chars[end])
        invariant
            from <= end <= chars.len(),
            forall|i: int| from <= i < end ==> !is_whitespace(#[trigger] chars@[i]),
        decreases chars.len() - end,
    {
        end += 1;
    }
    proof {
        lemma_word_len_is(chars@.skip(from as int), end - from);
    }
    end
}

impl<'a> Command<'a> {
    /// Parses `body` as a command under `prefix`.
    pub fn parse(prefix: &str, body: &'a str) -> (parsed: Option<Command<'a>>)
        ensures
            match parsed {
                Some(command) => parse_text(prefix@, body@) == Some(command@),
                None => parse_text(prefix@, body@) is None,
            },
            !prefix@.is_prefix_of(body@) ==> parsed is None,
            body@ == prefix@ ==> parsed is None,
            parsed matches Some(command) ==> is_word(command@.name) && forall|k: int|
                0 <= k < command@.args.len() ==> is_word(#[trigger] command@.args[k]),
    {
        let chars = chars_of(body);
        let lead = chars_of(prefix);
        if !has_prefix(&chars, &lead) {
            return None;
        }
        let start = lead.len();
        let ghost rest = body@.skip(start as int);
        let name_end = word_end(&chars, start);
        if name_end == start {
            return None;
        }
        let name = body.substring_char(start, name_end);
        let mut args: Vec<&'a str> = Vec::new();
        let mut at: usize = name_end;
        while at < chars.len()
            invariant
                chars@ == body@,
                name_end <= at <= chars.len(),
                texts(args@) + tokens(body@.skip(at as int)) == tokens(body@.skip(name_end as int)),
            decreases chars.len() - at,
        {
            let ghost tail = body@.skip(at as int);
            if char_is_whitespace(chars[at]) {
                assert(tail.drop_first() =~= body@.skip(at + 1));
                at += 1;
            } else {
                let end = word_end(&chars, at);
                let arg = body.substring_char(at, end);
                proof {
                    assert(tail.take(end - at) =~= body@.subrange(at as int, end as int));
                    assert(tail.skip(end - at) =~= body@.skip(end as int));
                }
                args.push(arg);
                at = end;
            }
        }
        proof {
            assert(rest.take(name_end - start) =~= body@.subrange(start as int, name_end as int));
            assert(rest.skip(name_end - start) =~= body@.skip(name_end as int));
            lemma_word_len(rest);
            lemma_tokens_are_words(body@.skip(name_end as int));
        }
        Some(Command { name, args })
    }

    /// The command's name.
    pub fn name(&self) -> (name: &'a str)
        ensures
            name@ == self@.name,
    {
        self.name
    }

    /// The command's arguments, in order.
    pub fn args(&self) -> (args: &[&'a str])
        ensures
            texts(args@) == self@.args,
    {
        self.args.as_slice()
    }
}

} // verus!
