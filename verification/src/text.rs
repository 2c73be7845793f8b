//! Joining and trimming of text.

use vstd::prelude::*;
use vstd::string::StringExecFns;

verus! {

/// The views of the string slices of `items`, in order.
pub open spec fn views(items: Seq<&str>) -> Seq<Seq<char>> {
    items.map_values(|item: &str| item@)
}

/// `components` written one after another with a single space between
/// neighbours: nothing before the first, nothing after the last.
pub open spec fn joined(components: Seq<Seq<char>>) -> Seq<char>
    decreases components.len(),
{
    if components.len() == 0 {
        Seq::empty()
    } else if components.len() == 1 {
        components[0]
    } else {
        joined(components.drop_last()) + seq![' '] + components.last()
    }
}

/// Whether `c` is white space as Unicode defines it (the property
/// `White_Space`): the blank, the controls from tab to carriage return, next
/// line, and the spaces and separators above them.
pub open spec fn is_whitespace(c: char) -> bool {
    let code = c as u32;
    ||| 0x09 <= code <= 0x0D
    ||| code == 0x20
    ||| code == 0x85
    ||| code == 0xA0
    ||| code == 0x1680
    ||| 0x2000 <= code <= 0x200A
    ||| code == 0x2028
    ||| code == 0x2029
    ||| code == 0x202F
    ||| code == 0x205F
    ||| code == 0x3000
}

/// `text` without the white space that it starts with.
pub open spec fn trimmed_start(text: Seq<char>) -> Seq<char>
    decreases text.len(),
{
    if text.len() > 0 && is_whitespace(text.first()) {
        trimmed_start(text.drop_first())
    } else {
        text
    }
}

/// `text` without the white space that it ends with.
pub open spec fn trimmed_end(text: Seq<char>) -> Seq<char>
    decreases text.len(),
{
    if text.len() > 0 && is_whitespace(text.last()) {
        trimmed_end(text.drop_last())
    } else {
        text
    }
}

/// `text` without the white space at either end.
pub open spec fn trimmed(text: Seq<char>) -> Seq<char> {
    trimmed_end(trimmed_start(text))
}

/// What trimming leaves neither starts nor ends with white space.
pub proof fn lemma_trimmed_is_tight(text: Seq<char>)
    ensures
        trimmed(text).len() > 0 ==> !is_whitespace(trimmed(text).first()) && !is_whitespace(
            trimmed(text).last(),
        ),
{
    lemma_trimmed_start_cuts(text);
    lemma_trimmed_end_cuts(trimmed_start(text));
    let inner = trimmed(text);
    if inner.len() > 0 {
        assert(inner.first() == trimmed_start(text).first());
    }
}

/// Trimming cuts white space and nothing else: `text` is a run of white
/// space, what trimming leaves, and another run of white space.
pub proof fn lemma_trimmed_is_inner(text: Seq<char>) -> (cut: (int, int))
    ensures
        0 <= cut.0 <= cut.1 <= text.len(),
        trimmed(text) == text.subrange(cut.0, cut.1),
        forall|i: int| 0 <= i < cut.0 ==> is_whitespace(text[i]),
        forall|i: int| cut.1 <= i < text.len() ==> is_whitespace(text[i]),
{
    lemma_trimmed_start_cuts(text);
    let rest = trimmed_start(text);
    lemma_trimmed_end_cuts(rest);
    let from = text.len() - rest.len();
    let to = from + trimmed(text).len();
    assert(trimmed(text) == text.subrange(from, to));
    assert forall|i: int| to <= i < text.len() implies is_whitespace(text[i]) by {
        assert(text[i] == rest[i - from]);
    }
    (from, to)
}

/// `trimmed_start` cuts a run of white space from the start of `text` and
/// stops at the first character that is none.
pub proof fn lemma_trimmed_start_cuts(text: Seq<char>)
    ensures
        trimmed_start(text).len() <= text.len(),
        trimmed_start(text) == text.skip(text.len() - trimmed_start(text).len()),
        forall|i: int| 0 <= i < text.len() - trimmed_start(text).len() ==> is_whitespace(text[i]),
        trimmed_start(text).len() > 0 ==> !is_whitespace(trimmed_start(text).first()),
    decreases text.len(),
{
    if text.len() > 0 && is_whitespace(text.first()) {
        let rest = text.drop_first();
        lemma_trimmed_start_cuts(rest);
        let cut = rest.len() - trimmed_start(rest).len();
        assert(rest.skip(cut) == text.skip(cut + 1));
        assert forall|i: int| 0 <= i < cut + 1 implies is_whitespace(text[i]) by {
            if i > 0 {
                assert(text[i] == rest[i - 1]);
            }
        }
    } else {
        assert(text.skip(0) == text);
    }
}

/// `trimmed_end` cuts a run of white space from the end of `text` and stops
/// at the last character that is none.
pub proof fn lemma_trimmed_end_cuts(text: Seq<char>)
    ensures
        trimmed_end(text).len() <= text.len(),
        trimmed_end(text) == text.take(trimmed_end(text).len() as int),
        forall|i: int| trimmed_end(text).len() <= i < text.len() ==> is_whitespace(text[i]),
        trimmed_end(text).len() > 0 ==> !is_whitespace(trimmed_end(text).last()),
    decreases text.len(),
{
    if text.len() > 0 && is_whitespace(text.last()) {
        let rest = text.drop_last();
        lemma_trimmed_end_cuts(rest);
        let kept = trimmed_end(rest).len() as int;
        assert(rest.take(kept) == text.take(kept));
        assert forall|i: int| kept <= i < text.len() implies is_whitespace(text[i]) by {
            if i < rest.len() {
                assert(text[i] == rest[i]);
            }
        }
    } else {
        assert(text.take(text.len() as int) == text);
    }
}

/// `str::trim`: the slice of `text` that is left when the white space at its
/// start and at its end is taken away.
#[verifier::external_body]
pub(crate) fn trim(text: &str) -> (inner: &str)
    ensures
        inner@ == trimmed(text@),
{
    text.trim()
}

/// Joins `components` with single spaces.
pub fn join(components: &[&str]) -> (line: String)
    ensures
        line@ == joined(views(components@)),
{
    let mut line = String::new();
    let mut i: usize = 0;
    while i < components.len()
        invariant
            i <= components.len(),
            line@ == joined(views(components@).take(i as int)),
        decreases components.len() - i,
    {
        if i > 0 {
            line.append(" ");
        }
        line.append(components[i]);
        proof {
            reveal_strlit(" ");
            let all = views(components@);
            assert(all.take(i + 1).drop_last() == all.take(i as int));
            assert(" "@ == seq![' ']);
        }
        i += 1;
    }
    proof {
        assert(views(components@).take(i as int) == views(components@));
    }
    line
}

} // verus!
