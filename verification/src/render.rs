//! Renderer: what is written for the units of a text.

use crate::blank::{is_blank, is_line};
use crate::file_parser::Flags;
use crate::highlight::{adapter_leaves, adapter_shows};
use crate::number::{counted, lemma_counted_push, line_number, numbered_line};
use crate::segment::{fragments, lemma_fragments_concat, lemma_fragments_shape};
use crate::squeeze::{fragment_unit, lemma_squeeze_without_blank, squeezed_unit, units, Unit};
use syntect::easy::HighlightLines;
use syntect::parsing::SyntaxSet;
use vstd::prelude::*;

verus! {

/// What is written for `unit` after the units `before`, where `shown` is its
/// text as it left the highlight adapter: `shown` behind the line's number
/// where lines are numbered and the unit is counted, else `shown`.
pub open spec fn unit_output(
    numbering: bool,
    before: Seq<Unit>,
    unit: Unit,
    shown: Seq<char>,
) -> Seq<char> {
    numbered_line(numbering && unit.counted, line_number(before), shown)
}

/// What is written for `units`, where `painted` holds for each unit its text
/// as it left the highlight adapter.
pub open spec fn rendered(numbering: bool, units: Seq<Unit>, painted: Seq<Seq<char>>) -> Seq<char>
    decreases units.len(),
{
    if units.len() == 0 {
        Seq::<char>::empty()
    } else {
        rendered(numbering, units.drop_last(), painted.drop_last()) + unit_output(
            numbering,
            units.drop_last(),
            units.last(),
            painted.last(),
        )
    }
}

/// The texts of `units`.
pub open spec fn texts(units: Seq<Unit>) -> Seq<Seq<char>> {
    units.map_values(|unit: Unit| unit.text)
}

/// The highlighter as it stands before the text `k` of a pass that began
/// with the highlighter `start`.
pub open spec fn state_before<'a>(
    highlighting: bool,
    start: HighlightLines<'a>,
    syntax_set: SyntaxSet,
    texts: Seq<Seq<char>>,
    k: nat,
) -> HighlightLines<'a>
    decreases k,
{
    if k == 0 {
        start
    } else {
        adapter_leaves(
            highlighting,
            state_before(highlighting, start, syntax_set, texts, (k - 1) as nat),
            syntax_set,
            texts[k - 1],
        )
    }
}

/// The text `k` of a pass as it leaves the highlight adapter, or nothing
/// where the highlighter fails on it or stops early.
pub open spec fn shown_unit(
    highlighting: bool,
    start: HighlightLines,
    syntax_set: SyntaxSet,
    texts: Seq<Seq<char>>,
    k: nat,
) -> Option<Seq<char>> {
    adapter_shows(
        highlighting,
        state_before(highlighting, start, syntax_set, texts, k),
        syntax_set,
        texts[k as int],
    )
}

/// Whether `painted` holds the first of `texts` as they leave the highlight
/// adapter, in order.
pub open spec fn is_painting(
    highlighting: bool,
    start: HighlightLines,
    syntax_set: SyntaxSet,
    texts: Seq<Seq<char>>,
    painted: Seq<Seq<char>>,
) -> bool {
    &&& painted.len() <= texts.len()
    &&& forall|i: nat|
        i < painted.len() ==> #[trigger] shown_unit(highlighting, start, syntax_set, texts, i)
            == Some(painted[i as int])
}

/// Whether a pass over `units` that began with the highlighter `start` and
/// got through the first `painted.len()` units has written `out`.
pub open spec fn is_rendering(
    flags: Flags,
    start: HighlightLines,
    syntax_set: SyntaxSet,
    units: Seq<Unit>,
    painted: Seq<Seq<char>>,
    out: Seq<char>,
) -> bool {
    &&& is_painting(flags.syntax_highlight, start, syntax_set, texts(units), painted)
    &&& out == rendered(flags.line_numbers, units.take(painted.len() as int), painted)
}

/// Whether a pass over `text` that began with the highlighter `start` has
/// written `out` and got through the units `painted`: through all of them,
/// or up to the first one on which the highlighter failed or stopped early.
pub open spec fn is_pass(
    flags: Flags,
    start: HighlightLines,
    syntax_set: SyntaxSet,
    text: Seq<char>,
    painted: Seq<Seq<char>>,
    out: Seq<char>,
) -> bool {
    let emitted = units(flags, fragments(text));
    &&& is_rendering(flags, start, syntax_set, emitted, painted, out)
    &&& painted.len() < emitted.len() ==> shown_unit(
        flags.syntax_highlight,
        start,
        syntax_set,
        texts(emitted),
        painted.len(),
    ) is None
}

/// The rendering of `text` without highlighting.
pub open spec fn plain(flags: Flags, text: Seq<char>) -> Seq<char> {
    let emitted = units(flags, fragments(text));
    rendered(flags.line_numbers, emitted, texts(emitted))
}

/// What is written for one unit more is what was written before, and then
/// the output of that unit; and the unit raises the count by one where it is
/// counted.
pub proof fn lemma_rendered_next(
    numbering: bool,
    units: Seq<Unit>,
    painted: Seq<Seq<char>>,
    shown: Seq<char>,
)
    requires
        painted.len() < units.len(),
    ensures
        ({
            let k = painted.len() as int;
            &&& rendered(numbering, units.take(k + 1), painted.push(shown)) == rendered(
                numbering,
                units.take(k),
                painted,
            ) + unit_output(numbering, units.take(k), units[k], shown)
            &&& counted(units.take(k + 1)) == counted(units.take(k)) + (if units[k].counted {
                1nat
            } else {
                0nat
            })
        }),
{
    let k = painted.len() as int;
    assert(units.take(k + 1).drop_last() =~= units.take(k));
    assert(units.take(k + 1) =~= units.take(k).push(units[k]));
    assert(painted.push(shown).drop_last() =~= painted);
    lemma_counted_push(units.take(k), units[k]);
}

/// Where nothing is highlighted, the texts that leave the highlight adapter
/// are those that entered it.
pub proof fn lemma_painting_plain(
    start: HighlightLines,
    syntax_set: SyntaxSet,
    texts: Seq<Seq<char>>,
    painted: Seq<Seq<char>>,
)
    requires
        is_painting(false, start, syntax_set, texts, painted),
        painted.len() == texts.len(),
    ensures
        painted == texts,
{
    assert forall|i: int| 0 <= i < painted.len() implies painted[i] == texts[i] by {
        assert(shown_unit(false, start, syntax_set, texts, i as nat) == Some(painted[i]));
    }
    assert(painted =~= texts);
}

/// A pass is settled by the switches, the highlighter it begins with, the
/// syntax set and the text: two passes that emit the same units under the
/// same numbering and highlighting get through the same units and write the
/// same.
pub proof fn lemma_pass_settled(
    flags: Flags,
    other: Flags,
    start: HighlightLines,
    syntax_set: SyntaxSet,
    text: Seq<char>,
    painted: (Seq<Seq<char>>, Seq<Seq<char>>),
    out: (Seq<char>, Seq<char>),
)
    requires
        flags.line_numbers == other.line_numbers,
        flags.syntax_highlight == other.syntax_highlight,
        units(flags, fragments(text)) == units(other, fragments(text)),
        is_pass(flags, start, syntax_set, text, painted.0, out.0),
        is_pass(other, start, syntax_set, text, painted.1, out.1),
    ensures
        painted.0 == painted.1,
        out.0 == out.1,
{
    let all = texts(units(flags, fragments(text)));
    let highlighting = flags.syntax_highlight;
    if painted.0.len() < painted.1.len() {
        assert(shown_unit(highlighting, start, syntax_set, all, painted.0.len()) is Some);
    }
    if painted.1.len() < painted.0.len() {
        assert(shown_unit(highlighting, start, syntax_set, all, painted.1.len()) is Some);
    }
    assert forall|i: int| 0 <= i < painted.0.len() implies painted.0[i] == painted.1[i] by {
        assert(shown_unit(highlighting, start, syntax_set, all, i as nat) == Some(painted.0[i]));
        assert(shown_unit(highlighting, start, syntax_set, all, i as nat) == Some(painted.1[i]));
    }
    assert(painted.0 =~= painted.1);
}

/// A text without blank lines is rendered alike with squeezing and without
/// it: the same units are emitted, and two passes that begin with the same
/// highlighter get equally far and write the same.
pub proof fn lemma_rendering_without_blank(
    flags: Flags,
    start: HighlightLines,
    syntax_set: SyntaxSet,
    text: Seq<char>,
    painted: (Seq<Seq<char>>, Seq<Seq<char>>),
    out: (Seq<char>, Seq<char>),
)
    requires
        forall|i: int| 0 <= i < fragments(text).len() ==> is_line(#[trigger] fragments(text)[i]),
        is_pass(Flags { squeeze: true, ..flags }, start, syntax_set, text, painted.0, out.0),
        is_pass(Flags { squeeze: false, ..flags }, start, syntax_set, text, painted.1, out.1),
    ensures
        units(Flags { squeeze: true, ..flags }, fragments(text)) == units(
            Flags { squeeze: false, ..flags },
            fragments(text),
        ),
        plain(Flags { squeeze: true, ..flags }, text) == plain(
            Flags { squeeze: false, ..flags },
            text,
        ),
        painted.0 == painted.1,
        out.0 == out.1,
{
    lemma_squeeze_without_blank(flags, fragments(text));
    lemma_pass_settled(
        Flags { squeeze: true, ..flags },
        Flags { squeeze: false, ..flags },
        start,
        syntax_set,
        text,
        painted,
        out,
    );
}

/// Whether squeezing leaves the blank fragments of `frags` as they are:
/// each is a single line feed, and none follows another.
pub open spec fn blank_runs_are_line_feeds(frags: Seq<Seq<char>>) -> bool {
    forall|i: int|
        0 <= i < frags.len() && is_blank(#[trigger] frags[i]) ==> frags[i] == seq!['\n'] && (i > 0
            ==> is_line(frags[i - 1]))
}

/// Without numbers, what is written for units is their texts as they left
/// the highlight adapter, one after the other.
pub proof fn lemma_rendered_unnumbered(units: Seq<Unit>, painted: Seq<Seq<char>>)
    requires
        painted.len() == units.len(),
    ensures
        rendered(false, units, painted) == painted.flatten(),
    decreases units.len(),
{
    if units.len() > 0 {
        lemma_rendered_unnumbered(units.drop_last(), painted.drop_last());
        painted.drop_last().lemma_flatten_push(painted.last());
        assert(painted.drop_last().push(painted.last()) =~= painted);
    }
}

/// Without escapes, the emitted units have the texts of the fragments,
/// unless squeezing changes a run of blank fragments.
pub proof fn lemma_texts_of_units(flags: Flags, frags: Seq<Seq<char>>)
    requires
        !flags.show_non_printing,
        flags.squeeze ==> blank_runs_are_line_feeds(frags),
    ensures
        texts(units(flags, frags)) == frags,
    decreases frags.len(),
{
    if frags.len() > 0 {
        let before = frags.drop_last();
        if flags.squeeze {
            assert forall|i: int| 0 <= i < before.len() && is_blank(
                #[trigger] before[i],
            ) implies before[i] == seq!['\n'] && (i > 0 ==> is_line(before[i - 1])) by {
                assert(before[i] == frags[i]);
            }
        }
        lemma_texts_of_units(flags, before);
        if flags.squeeze && is_blank(frags.last()) {
            assert(frags.last() =~= squeezed_unit().text);
        }
        assert(before.push(frags.last()) =~= frags);
    }
}

/// The texts of units and one more are, put together, the texts of the
/// units put together and then the text of that one.
proof fn lemma_texts_push(units: Seq<Unit>, unit: Unit)
    ensures
        texts(units.push(unit)).flatten() == texts(units).flatten() + unit.text,
{
    assert(texts(units.push(unit)) =~= texts(units).push(unit.text));
    texts(units).lemma_flatten_push(unit.text);
}

/// Without escapes, the texts of the emitted units are together no longer
/// than the fragments.
proof fn lemma_texts_no_longer(flags: Flags, frags: Seq<Seq<char>>)
    requires
        !flags.show_non_printing,
        forall|i: int| 0 <= i < frags.len() ==> (#[trigger] frags[i]).len() > 0,
    ensures
        texts(units(flags, frags)).flatten().len() <= frags.flatten().len(),
    decreases frags.len(),
{
    if frags.len() > 0 {
        let before = frags.drop_last();
        assert forall|i: int| 0 <= i < before.len() implies (#[trigger] before[i]).len() > 0 by {
            assert(before[i] == frags[i]);
        }
        lemma_texts_no_longer(flags, before);
        assert(before.push(frags.last()) =~= frags);
        before.lemma_flatten_push(frags.last());
        lemma_texts_push(units(flags, before), squeezed_unit());
        lemma_texts_push(units(flags, before), fragment_unit(flags, frags.last()));
    }
}

/// Without escapes, the texts of the units of squeezed fragments are
/// together the fragments only where squeezing leaves the blank fragments as
/// they are.
proof fn lemma_texts_changed(flags: Flags, frags: Seq<Seq<char>>)
    requires
        flags.squeeze,
        !flags.show_non_printing,
        forall|i: int| 0 <= i < frags.len() ==> (#[trigger] frags[i]).len() > 0,
        texts(units(flags, frags)).flatten() == frags.flatten(),
    ensures
        blank_runs_are_line_feeds(frags),
    decreases frags.len(),
{
    if frags.len() > 0 {
        let before = frags.drop_last();
        let last = frags.last();
        assert forall|i: int| 0 <= i < before.len() implies (#[trigger] before[i]).len() > 0 by {
            assert(before[i] == frags[i]);
        }
        lemma_texts_no_longer(flags, before);
        assert(before.push(last) =~= frags);
        before.lemma_flatten_push(last);
        lemma_texts_push(units(flags, before), squeezed_unit());
        lemma_texts_push(units(flags, before), fragment_unit(flags, last));
        // What is written for `before` is no longer than `before`, and what
        // is written for `last` no longer than `last`: so each is as long,
        // and where the whole is the same, each part is.
        let whole = frags.flatten();
        let n = before.flatten().len() as int;
        if is_blank(last) {
            assert(squeezed_unit().text =~= seq![whole[n]]);
        }
        assert(texts(units(flags, before)).flatten() =~= whole.take(n));
        assert(before.flatten() =~= whole.take(n));
        lemma_texts_changed(flags, before);
        assert forall|i: int| 0 <= i < frags.len() && is_blank(#[trigger] frags[i]) implies frags[i]
            == seq!['\n'] && (i > 0 ==> is_line(frags[i - 1])) by {
            if i < before.len() {
                assert(before[i] == frags[i]);
            }
        }
    }
}

/// Rendering without numbers, escapes and colours gives back the text,
/// unless squeezing changes a run of blank lines; then it does not.
pub proof fn lemma_plain_round_trip(flags: Flags, text: Seq<char>)
    requires
        !flags.line_numbers,
        !flags.show_non_printing,
    ensures
        plain(flags, text) == text <==> (flags.squeeze ==> blank_runs_are_line_feeds(
            fragments(text),
        )),
{
    let frags = fragments(text);
    let emitted = units(flags, frags);
    lemma_rendered_unnumbered(emitted, texts(emitted));
    lemma_fragments_concat(text);
    if flags.squeeze ==> blank_runs_are_line_feeds(frags) {
        lemma_texts_of_units(flags, frags);
    } else if plain(flags, text) == text {
        assert forall|i: int| 0 <= i < frags.len() implies (#[trigger] frags[i]).len() > 0 by {
            lemma_fragments_shape(text, i);
        }
        lemma_texts_changed(flags, frags);
    }
}

} // verus!
