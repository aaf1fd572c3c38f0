//! Finding the commands that a message holds in braces.

use vstd::prelude::*;
use regex::Regex;
use crate::text::texts;

verus! {

/// The pattern of an inline command: an opening brace, as little text as
/// will do, a closing brace. The text between the braces is group 1, and it
/// may hold any character, a line break too.
pub const INLINE_PATTERN: &'static str = "(?s)\\{(.*?)\\}";

/// The group of `INLINE_PATTERN` that holds the command.
pub const INLINE_GROUP: usize = 1;

/// Where `c` first stands in `s`, or the length of `s` where it does not.
pub open spec fn first_at(s: Seq<char>, c: char) -> int
    decreases s.len(),
{
    if s.len() == 0 || s[0] == c {
        0
    } else {
        1 + first_at(s.drop_first(), c)
    }
}

/// The inline commands of `body`, in order. The first opening brace opens
/// the first one, the first closing brace behind it closes it, and what
/// stands between the two is the command; the search goes on behind that
/// closing brace. It ends where no opening brace is left, or no closing
/// brace behind one.
pub open spec fn inline_texts(body: Seq<char>) -> Seq<Seq<char>>
    decreases body.len(),
{
    let open = first_at(body, '{');
    if open >= body.len() {
        Seq::empty()
    } else {
        let inner = body.skip(open + 1);
        let close = first_at(inner, '}');
        if close >= inner.len() {
            Seq::empty()
        } else {
            proof {
                lemma_first_at(body, '{');
                lemma_first_at(inner, '}');
            }
            seq![inner.take(close)] + inline_texts(inner.skip(close + 1))
        }
    }
}

/// `first_at(s, c)` is an index of `s` or its length, no `c` stands before
/// it, and where it is an index, `c` stands there.
pub proof fn lemma_first_at(s: Seq<char>, c: char)
    ensures
        0 <= first_at(s, c) <= s.len(),
        forall|i: int| 0 <= i < first_at(s, c) ==> #[trigger] s[i] != c,
        first_at(s, c) < s.len() ==> s[first_at(s, c)] == c,
    decreases s.len(),
{
    if s.len() == 0 || s[0] == c {
    } else {
        let t = s.drop_first();
        lemma_first_at(t, c);
        assert forall|i: int| 0 <= i < first_at(s, c) implies #[trigger] s[i] != c by {
            if i > 0 {
                assert(s[i] == t[i - 1]);
            }
        }
        if first_at(s, c) < s.len() {
            assert(s[first_at(s, c)] == t[first_at(t, c)]);
        }
    }
}

/// An index with `c` at it and no `c` before it is where `c` first stands;
/// so is the length of a text without `c`.
pub proof fn lemma_first_at_is(s: Seq<char>, c: char, at: int)
    requires
        0 <= at <= s.len(),
        forall|i: int| 0 <= i < at ==> #[trigger] s[i] != c,
        at < s.len() ==> s[at] == c,
    ensures
        first_at(s, c) == at,
    decreases at,
{
    if at > 0 {
        let t = s.drop_first();
        assert forall|i: int| 0 <= i < at - 1 implies #[trigger] t[i] != c by {
            assert(t[i] == s[i + 1]);
        }
        lemma_first_at_is(t, c, at - 1);
    }
}

/// A text without an opening brace holds no inline command.
pub proof fn lemma_no_opening_brace_no_inline_text(body: Seq<char>)
    requires
        forall|i: int| 0 <= i < body.len() ==> #[trigger] body[i] != '{',
    ensures
        inline_texts(body) == Seq::<Seq<char>>::empty(),
{
    lemma_first_at_is(body, '{', body.len() as int);
}

/// A text without a closing brace holds no inline command.
pub proof fn lemma_no_closing_brace_no_inline_text(body: Seq<char>)
    requires
        forall|i: int| 0 <= i < body.len() ==> #[trigger] body[i] != '}',
    ensures
        inline_texts(body) == Seq::<Seq<char>>::empty(),
{
    lemma_first_at(body, '{');
    let open = first_at(body, '{');
    if open < body.len() {
        let inner = body.skip(open + 1);
        assert forall|i: int| 0 <= i < inner.len() implies #[trigger] inner[i] != '}' by {
            assert(inner[i] == body[open + 1 + i]);
        }
        lemma_first_at_is(inner, '}', inner.len() as int);
    }
}

/// Where a text is made of a part without an opening brace, an opening
/// brace, a part without a closing brace, a closing brace and a rest, its
/// first inline command is the part between the braces, and its other inline
/// commands are those of the rest, whatever stands in the parts.
pub proof fn lemma_inline_texts_unfold(before: Seq<char>, inner: Seq<char>, rest: Seq<char>)
    requires
        forall|i: int| 0 <= i < before.len() ==> #[trigger] before[i] != '{',
        forall|i: int| 0 <= i < inner.len() ==> #[trigger] inner[i] != '}',
    ensures
        inline_texts(before + seq!['{'] + inner + seq!['}'] + rest) == seq![inner] + inline_texts(
            rest,
        ),
{
    let body = before + seq!['{'] + inner + seq!['}'] + rest;
    let open = before.len() as int;
    assert(body[open] == '{');
    assert forall|i: int| 0 <= i < open implies #[trigger] body[i] != '{' by {
        assert(body[i] == before[i]);
    }
    lemma_first_at_is(body, '{', open);
    let tail = body.skip(open + 1);
    assert(tail =~= inner + seq!['}'] + rest);
    let close = inner.len() as int;
    assert(tail[close] == '}');
    assert forall|i: int| 0 <= i < close implies #[trigger] tail[i] != '}' by {
        assert(tail[i] == inner[i]);
    }
    lemma_first_at_is(tail, '}', close);
    assert(tail.take(close) =~= inner);
    assert(tail.skip(close + 1) =~= rest);
}

/// No inline command holds a closing brace.
pub proof fn lemma_inline_texts_hold_no_closing_brace(body: Seq<char>)
    ensures
        forall|k: int, i: int|
            0 <= k < inline_texts(body).len() && 0 <= i < inline_texts(body)[k].len()
                ==> #[trigger] inline_texts(body)[k][i] != '}',
    decreases body.len(),
{
    lemma_first_at(body, '{');
    let open = first_at(body, '{');
    if open < body.len() {
        let inner = body.skip(open + 1);
        lemma_first_at(inner, '}');
        let close = first_at(inner, '}');
        if close < inner.len() {
            let rest = inline_texts(inner.skip(close + 1));
            lemma_inline_texts_hold_no_closing_brace(inner.skip(close + 1));
            assert(inline_texts(body) == seq![inner.take(close)] + rest);
            assert forall|k: int, i: int|
                0 <= k < inline_texts(body).len() && 0 <= i < inline_texts(body)[k].len()
                    implies #[trigger] inline_texts(body)[k][i] != '}' by {
                if k == 0 {
                    assert(inline_texts(body)[0][i] == inner[i]);
                } else {
                    assert(inline_texts(body)[k] == rest[k - 1]);
                }
            }
        }
    }
}

/// The views of a sequence of optional string slices, in order.
pub open spec fn optional_texts(parts: Seq<Option<&str>>) -> Seq<Option<Seq<char>>> {
    Seq::new(
        parts.len(),
        |i: int|
            match parts[i] {
                Some(part) => Some(part@),
                None => None,
            },
    )
}

/// Each of `found`, as a text that is there.
pub open spec fn all_present(found: Seq<Seq<char>>) -> Seq<Option<Seq<char>>> {
    Seq::new(found.len(), |i: int| Some(found[i]))
}

/// The entries of `found` that hold a text, in order.
pub open spec fn present(found: Seq<Option<Seq<char>>>) -> Seq<Seq<char>>
    decreases found.len(),
{
    if found.len() == 0 {
        Seq::empty()
    } else {
        match found.last() {
            Some(text) => present(found.drop_last()).push(text),
            None => present(found.drop_last()),
        }
    }
}

/// Where every text is there, keeping those that are there keeps all.
pub proof fn lemma_present_of_all_present(found: Seq<Seq<char>>)
    ensures
        present(all_present(found)) == found,
    decreases found.len(),
{
    if found.len() > 0 {
        lemma_present_of_all_present(found.drop_last());
        assert(all_present(found).drop_last() =~= all_present(found.drop_last()));
        assert(present(all_present(found)) =~= found);
    }
}

/// Compiles the inline pattern with `Regex::new`, walks the successive
/// non-overlapping matches in `haystack` with `Regex::captures_iter`, and
/// takes from each what `Captures::get(group)` holds, as the slice of the
/// haystack that `Match::as_str` gives.
///
/// This is for the inline pattern and its group alone, and what is claimed
/// is what the regex crate documents of that pattern: it compiles; a search
/// finds the leftmost match, which begins at the first `{` that has a `}`
/// behind it; the lazy `.*?`, which under `(?s)` takes any character, ends
/// at the first `}` behind that `{`; the group between the two takes part in
/// every match; and the next search begins behind the match.
#[verifier::external_body]
fn find_group_matches<'h>(pattern: &str, group: usize, haystack: &'h str) -> (found: Vec<
    Option<&'h str>,
>)
    requires
        pattern@ == INLINE_PATTERN@,
        group == INLINE_GROUP,
    ensures
        optional_texts(found@) == all_present(inline_texts(haystack@)),
{
    let compiled = Regex::new(pattern).unwrap();
    compiled.captures_iter(haystack).map(|caps| caps.get(group).map(|m| m.as_str())).collect()
}

/// Keeps the slices that are there, in order.
pub fn present_parts<'h>(found: &Vec<Option<&'h str>>) -> (kept: Vec<&'h str>)
    ensures
        texts(kept@) == present(optional_texts(found@)),
{
    let mut kept: Vec<&'h str> = Vec::new();
    let mut at: usize = 0;
    while at < found.len()
        invariant
            at <= found.len(),
            texts(kept@) == present(optional_texts(found@.take(at as int))),
        decreases found.len() - at,
    {
        assert(optional_texts(found@.take(at + 1)).drop_last() =~= optional_texts(
            found@.take(at as int),
        ));
        if let Some(part) = found[at] {
            kept.push(part);
        }
        at += 1;
    }
    assert(found@.take(at as int) =~= found@);
    kept
}

/// The inline commands of `body`, as slices of it.
pub fn inline_commands<'h>(body: &'h str) -> (pieces: Vec<&'h str>)
    ensures
        texts(pieces@) == inline_texts(body@),
{
    let found = find_group_matches(INLINE_PATTERN, INLINE_GROUP, body);
    proof {
        lemma_present_of_all_present(inline_texts(body@));
    }
    present_parts(&found)
}

} // verus!
