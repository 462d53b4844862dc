//! Templating of the configuration text: each placeholder `${NAME}` is
//! replaced by the value that the environment gives to `NAME`.
//!
//! A placeholder opens with `${` and closes with the first `}` after it,
//! on the same line; what stands between the two is its name. A `${` that
//! finds no `}` before the end of the line is ordinary text. Values are put
//! in as they are: what looks like a placeholder inside a value stays.

use vstd::prelude::*;
use vstd::string::StringExecFns;
use crate::bindings::{bindings_of, is_set, lemma_unset_name_has_no_value, value_of, Bindings};
use crate::text::{chars_of, string_of};

verus! {

/// Where the name that starts at `from` closes: the place of the first
/// `}` at or after `from`, if no line break comes before it.
pub open spec fn name_end(text: Seq<char>, from: int) -> Option<int>
    decreases text.len() - from,
{
    if from < 0 || from >= text.len() {
        None
    } else if text[from] == '}' {
        Some(from)
    } else if text[from] == '\n' {
        None
    } else {
        name_end(text, from + 1)
    }
}

/// Whether a placeholder opens at `at`.
pub open spec fn placeholder_at(text: Seq<char>, at: int) -> bool {
    &&& 0 <= at
    &&& at + 1 < text.len()
    &&& text[at] == '$'
    &&& text[at + 1] == '{'
    &&& name_end(text, at + 2) is Some
}

/// The place of the `}` that closes the placeholder that opens at `at`.
pub open spec fn placeholder_close(text: Seq<char>, at: int) -> int {
    name_end(text, at + 2)->Some_0
}

/// The name of the placeholder that opens at `at`.
pub open spec fn placeholder_name(text: Seq<char>, at: int) -> Seq<char> {
    text.subrange(at + 2, placeholder_close(text, at))
}

/// A name closes at or after the place where it starts, on a `}`, and
/// holds neither a `}` nor a line break.
pub proof fn lemma_name_end(text: Seq<char>, from: int)
    ensures
        name_end(text, from) matches Some(end) ==> {
            &&& 0 <= from <= end < text.len()
            &&& text[end] == '}'
            &&& forall|k: int| from <= k < end ==> text[k] != '}' && text[k] != '\n'
        },
        name_end(text, from) is None && 0 <= from ==> forall|k: int|
            from <= k < text.len() && text[k] == '}' ==> exists|n: int|
                from <= n < k && text[n] == '\n',
    decreases text.len() - from,
{
    if 0 <= from < text.len() && text[from] != '}' && text[from] != '\n' {
        lemma_name_end(text, from + 1);
        if name_end(text, from) is None {
            assert forall|k: int| from <= k < text.len() && text[k] == '}' implies exists|n: int|
                from <= n < k && text[n] == '\n' by {
                let n = choose|n: int| from + 1 <= n < k && text[n] == '\n';
                assert(from <= n < k && text[n] == '\n');
            }
        }
    } else if 0 <= from < text.len() && text[from] == '\n' {
        assert forall|k: int| from <= k < text.len() && text[k] == '}' implies exists|n: int|
            from <= n < k && text[n] == '\n' by {
            assert(from <= from < k && text[from] == '\n');
        }
    }
}

/// The text from `from` on, with each placeholder replaced by the value
/// of its name.
pub open spec fn rendered_from(text: Seq<char>, bindings: Bindings, from: int) -> Seq<char>
    decreases text.len() - from,
{
    if from < 0 || from >= text.len() {
        Seq::empty()
    } else if placeholder_at(text, from) {
        proof {
            lemma_name_end(text, from + 2);
        }
        value_of(bindings, placeholder_name(text, from)) + rendered_from(
            text,
            bindings,
            placeholder_close(text, from) + 1,
        )
    } else {
        seq![text[from]] + rendered_from(text, bindings, from + 1)
    }
}

/// The text with each placeholder replaced by the value of its name.
pub open spec fn rendered(text: Seq<char>, bindings: Bindings) -> Seq<char> {
    rendered_from(text, bindings, 0)
}

/// The names of the placeholders from `from` on, one for each
/// placeholder and in their order.
pub open spec fn names_from(text: Seq<char>, from: int) -> Seq<Seq<char>>
    decreases text.len() - from,
{
    if from < 0 || from >= text.len() {
        Seq::empty()
    } else if placeholder_at(text, from) {
        proof {
            lemma_name_end(text, from + 2);
        }
        seq![placeholder_name(text, from)] + names_from(text, placeholder_close(text, from) + 1)
    } else {
        names_from(text, from + 1)
    }
}

/// The views of the names.
pub open spec fn names_of(names: Seq<String>) -> Seq<Seq<char>> {
    names.map_values(|name: String| name@)
}

/// Text without placeholders is rendered as it is, whatever the
/// environment holds.
pub proof fn lemma_text_without_placeholders_is_unchanged(text: Seq<char>, bindings: Bindings)
    requires
        forall|at: int| !placeholder_at(text, at),
    ensures
        rendered(text, bindings) == text,
        names_from(text, 0) == Seq::<Seq<char>>::empty(),
{
    lemma_no_placeholder_from(text, bindings, 0);
    assert(text.skip(0) == text);
}

proof fn lemma_no_placeholder_from(text: Seq<char>, bindings: Bindings, from: int)
    requires
        0 <= from <= text.len(),
        forall|at: int| !placeholder_at(text, at),
    ensures
        rendered_from(text, bindings, from) == text.skip(from),
        names_from(text, from) == Seq::<Seq<char>>::empty(),
    decreases text.len() - from,
{
    if from < text.len() {
        lemma_no_placeholder_from(text, bindings, from + 1);
        assert(text.skip(from) == seq![text[from]] + text.skip(from + 1));
    }
}

/// A name that the environment does not set has the empty value, so its
/// placeholders leave nothing in the rendered text.
pub proof fn lemma_unset_name_renders_empty(text: Seq<char>, bindings: Bindings, at: int)
    requires
        placeholder_at(text, at),
        !is_set(bindings, placeholder_name(text, at)),
    ensures
        value_of(bindings, placeholder_name(text, at)) == Seq::<char>::empty(),
        rendered_from(text, bindings, at) == rendered_from(
            text,
            bindings,
            placeholder_close(text, at) + 1,
        ),
{
    lemma_unset_name_has_no_value(bindings, placeholder_name(text, at));
}

/// Where the name that starts at `from` closes.
fn find_name_end(text: &[char], from: usize) -> (end: Option<usize>)
    requires
        from <= text.len(),
    ensures
        match end {
            Some(e) => name_end(text@, from as int) == Some(e as int),
            None => name_end(text@, from as int) is None,
        },
{
    let mut at = from;
    while at < text.len()
        invariant
            from <= at <= text.len(),
            name_end(text@, from as int) == name_end(text@, at as int),
        decreases text.len() - at,
    {
        if text[at] == '}' {
            return Some(at);
        }
        if text[at] == '\n' {
            return None;
        }
        at += 1;
    }
    None
}

/// Where the placeholder that opens at `at` closes, if one opens there.
fn find_placeholder(text: &[char], at: usize) -> (close: Option<usize>)
    requires
        at < text.len(),
    ensures
        match close {
            Some(c) => placeholder_at(text@, at as int) && placeholder_close(text@, at as int)
                == c && at + 2 <= c < text.len(),
            None => !placeholder_at(text@, at as int),
        },
{
    if text[at] == '$' && text.len() - at >= 2 && text[at + 1] == '{' {
        proof {
            lemma_name_end(text@, at + 2);
        }
        find_name_end(text, at + 2)
    } else {
        None
    }
}

/// The characters of `text` from `from` up to `to`.
fn copy_range(text: &[char], from: usize, to: usize) -> (part: Vec<char>)
    requires
        from <= to <= text.len(),
    ensures
        part@ == text@.subrange(from as int, to as int),
{
    let mut part: Vec<char> = Vec::new();
    let mut at = from;
    while at < to
        invariant
            from <= at <= to <= text.len(),
            part@ == text@.subrange(from as int, at as int),
        decreases to - at,
    {
        part.push(text[at]);
        at += 1;
        assert(text@.subrange(from as int, at as int) == text@.subrange(
            from as int,
            at - 1,
        ).push(text@[at - 1]));
    }
    part
}

/// Appends to `out` the value that `environment` gives to `name`.
fn push_value(out: &mut String, environment: &[(String, String)], name: &[char])
    ensures
        final(out)@ == old(out)@ + value_of(bindings_of(environment@), name@),
{
    let wanted = string_of(name);
    let ghost bindings = bindings_of(environment@);
    let mut k = environment.len();
    assert(bindings.take(k as int) == bindings);
    while k > 0
        invariant
            k <= environment.len(),
            bindings == bindings_of(environment@),
            wanted@ == name@,
            out@ == old(out)@,
            value_of(bindings, name@) == value_of(bindings.take(k as int), name@),
        decreases k,
    {
        k -= 1;
        assert(bindings[k as int] == (environment@[k as int].0@, environment@[k as int].1@));
        assert(bindings.take(k + 1).last() == bindings[k as int]);
        assert(bindings.take(k + 1).drop_last() == bindings.take(k as int));
        if environment[k].0 == wanted {
            out.append(environment[k].1.as_str());
            return ;
        }
    }
    assert(out@ == old(out)@ + Seq::<char>::empty());
}

/// The names of the placeholders of `content`, one for each placeholder
/// and in their order: the names to look up in the environment.
pub fn referenced_names(content: &str) -> (names: Vec<String>)
    ensures
        names_of(names@) == names_from(content@, 0),
{
    let text = chars_of(content);
    let mut names: Vec<String> = Vec::new();
    let mut at: usize = 0;
    while at < text.len()
        invariant
            at <= text.len(),
            text@ == content@,
            names_from(content@, 0) == names_of(names@) + names_from(content@, at as int),
        decreases text.len() - at,
    {
        match find_placeholder(text.as_slice(), at) {
            Some(close) => {
                let name = copy_range(text.as_slice(), at + 2, close);
                let ghost before = names@;
                names.push(string_of(name.as_slice()));
                assert(names_of(names@) == names_of(before).push(name@));
                at = close + 1;
            },
            None => {
                at += 1;
            },
        }
    }
    assert(names_of(names@) + Seq::<Seq<char>>::empty() == names_of(names@));
    names
}

/// The configuration text `content` with each placeholder replaced by
/// the value that `environment` gives to its name, or by nothing where
/// `environment` does not set the name.
pub fn parse_config(content: &str, environment: &[(String, String)]) -> (text: String)
    ensures
        text@ == rendered(content@, bindings_of(environment@)),
{
    let chars = chars_of(content);
    let ghost bindings = bindings_of(environment@);
    let mut out = String::new();
    let mut at: usize = 0;
    while at < chars.len()
        invariant
            at <= chars.len(),
            chars@ == content@,
            bindings == bindings_of(environment@),
            rendered(content@, bindings) == out@ + rendered_from(content@, bindings, at as int),
        decreases chars.len() - at,
    {
        match find_placeholder(chars.as_slice(), at) {
            Some(close) => {
                let name = copy_range(chars.as_slice(), at + 2, close);
                push_value(&mut out, environment, name.as_slice());
                at = close + 1;
            },
            None => {
                out.push(chars[at]);
                at += 1;
            },
        }
    }
    assert(out@ + Seq::<char>::empty() == out@);
    out
}

} // verus!
