//! Line segmenter: a text as the sequence of its lines, each with its line
//! feed where it has one.

use syntect::util::LinesWithEndings;
use vstd::prelude::*;

verus! {

/// The line iterator of syntect.
#[verifier::external_type_specification]
#[verifier::external_body]
pub struct ExLinesWithEndings<'a>(syntect::util::LinesWithEndings<'a>);

/// The text that a line iterator has not handed out yet.
pub uninterp spec fn remaining_text(lines: &LinesWithEndings) -> Seq<char>;

/// Length of the first fragment of `text`: up to and including the first
/// line feed, or the whole of `text` where it holds none.
pub open spec fn first_fragment_len(text: Seq<char>) -> nat
    decreases text.len(),
{
    if text.len() == 0 {
        0
    } else if text[0] == '\n' {
        1
    } else {
        1 + first_fragment_len(text.drop_first())
    }
}

/// The first fragment of `text`.
pub open spec fn first_fragment(text: Seq<char>) -> Seq<char> {
    text.take(first_fragment_len(text) as int)
}

/// The fragments of `text` in order. Every fragment but the last ends in a
/// line feed, and none holds a line feed before its end.
pub open spec fn fragments(text: Seq<char>) -> Seq<Seq<char>>
    decreases text.len(),
    via fragments_decreases
{
    if text.len() == 0 {
        seq![]
    } else {
        seq![first_fragment(text)] + fragments(text.skip(first_fragment_len(text) as int))
    }
}

#[via_fn]
proof fn fragments_decreases(text: Seq<char>) {
    lemma_first_fragment_len(text);
}

/// The first fragment of a text that is not empty is not empty, lies within
/// the text, holds no line feed before its last character, and ends in a line
/// feed unless it is the whole text.
pub proof fn lemma_first_fragment_len(text: Seq<char>)
    ensures
        first_fragment_len(text) <= text.len(),
        text.len() > 0 ==> first_fragment_len(text) >= 1,
        forall|i: int| 0 <= i < first_fragment_len(text) - 1 ==> text[i] != '\n',
        first_fragment_len(text) < text.len() ==> text[first_fragment_len(text) - 1] == '\n',
    decreases text.len(),
{
    if text.len() > 0 && text[0] != '\n' {
        let rest = text.drop_first();
        lemma_first_fragment_len(rest);
        assert forall|i: int| 0 <= i < first_fragment_len(text) - 1 implies text[i] != '\n' by {
            if i > 0 {
                assert(text[i] == rest[i - 1]);
            }
        }
    }
}

/// The fragments of a text, put together, are the text.
pub proof fn lemma_fragments_concat(text: Seq<char>)
    ensures
        fragments(text).flatten() == text,
    decreases text.len(),
{
    if text.len() > 0 {
        let n = first_fragment_len(text) as int;
        lemma_first_fragment_len(text);
        lemma_fragments_concat(text.skip(n));
        assert(fragments(text).drop_first() =~= fragments(text.skip(n)));
    }
}

/// No fragment is empty, none holds a line feed before its last character,
/// and every fragment but the last ends in a line feed.
pub proof fn lemma_fragments_shape(text: Seq<char>, i: int)
    requires
        0 <= i < fragments(text).len(),
    ensures
        fragments(text)[i].len() > 0,
        forall|j: int| 0 <= j < fragments(text)[i].len() - 1 ==> fragments(text)[i][j] != '\n',
        i < fragments(text).len() - 1 ==> fragments(text)[i].last() == '\n',
    decreases text.len(),
{
    let n = first_fragment_len(text) as int;
    let rest = fragments(text.skip(n));
    lemma_first_fragment_len(text);
    if i > 0 {
        lemma_fragments_shape(text.skip(n), i - 1);
        assert(fragments(text)[i] == rest[i - 1]);
    } else if fragments(text).len() > 1 {
        assert(rest.len() > 0);
    }
}

/// `LinesWithEndings::from` starts an iterator over the whole of `text`.
#[verifier::external_body]
pub(crate) fn lines_of<'a>(text: &'a str) -> (lines: LinesWithEndings<'a>)
    ensures
        remaining_text(&lines) == text@,
{
    LinesWithEndings::from(text)
}

/// `LinesWithEndings::next` hands out nothing once the text is used up, and
/// otherwise splits the first fragment off the remaining text and hands it out.
#[verifier::external_body]
pub(crate) fn next_line<'a>(lines: &mut LinesWithEndings<'a>) -> (line: Option<&'a str>)
    ensures
        match line {
            Some(fragment) => {
                &&& remaining_text(old(lines)).len() > 0
                &&& fragment@ == first_fragment(remaining_text(old(lines)))
                &&& remaining_text(final(lines)) == remaining_text(old(lines)).skip(
                    fragment@.len() as int,
                )
            },
            None => {
                &&& remaining_text(old(lines)).len() == 0
                &&& remaining_text(final(lines)) == remaining_text(old(lines))
            },
        },
{
    lines.next()
}

/// The fragments of `text`, in order.
pub fn split_fragments(text: &str) -> (frags: Vec<String>)
    ensures
        frags.deep_view() == fragments(text@),
{
    let mut frags: Vec<String> = Vec::new();
    let mut lines = lines_of(text);
    loop
        invariant
            fragments(text@) == frags.deep_view() + fragments(remaining_text(&lines)),
        ensures
            remaining_text(&lines).len() == 0,
        decreases remaining_text(&lines).len(),
    {
        let ghost rest = remaining_text(&lines);
        let ghost before = frags.deep_view();
        match next_line(&mut lines) {
            None => {
                break ;
            },
            Some(line) => {
                frags.push(line.to_owned());
                proof {
                    lemma_first_fragment_len(rest);
                    assert(fragments(text@) =~= frags.deep_view() + fragments(
                        remaining_text(&lines),
                    ));
                }
            },
        }
    }
    frags
}

} // verus!
