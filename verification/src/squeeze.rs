//! Blank-run squeezer: the units that the fragments of a text are emitted as.

use crate::blank::{is_blank, is_line};
use crate::escape::escaped;
use crate::file_parser::Flags;
use vstd::prelude::*;

verus! {

/// One emitted unit, as it reaches the highlight adapter: its text, and
/// whether it is a line that is counted, that is, one that is not blank.
pub struct Unit {
    pub text: Seq<char>,
    pub counted: bool,
}

/// `count` line feeds.
pub open spec fn newlines(count: nat) -> Seq<char> {
    Seq::new(count, |i: int| '\n')
}

/// The text that a pending run of `count` blank fragments is flushed as: one
/// line feed where runs are squeezed, else as many as the run has fragments.
pub open spec fn blank_run_text(squeeze: bool, count: nat) -> Seq<char> {
    newlines(if squeeze { 1 } else { count })
}

/// The text of a fragment as it is shown: escaped where control characters
/// are shown.
pub open spec fn shown_text(flags: Flags, fragment: Seq<char>) -> Seq<char> {
    if flags.show_non_printing {
        escaped(fragment)
    } else {
        fragment
    }
}

/// The unit of a fragment that is emitted by itself.
pub open spec fn fragment_unit(flags: Flags, fragment: Seq<char>) -> Unit {
    Unit { text: shown_text(flags, fragment), counted: is_line(fragment) }
}

/// The unit that a squeezed run of blank fragments is emitted as.
pub open spec fn squeezed_unit() -> Unit {
    Unit { text: blank_run_text(true, 1), counted: false }
}

/// The units that `frags` are emitted as, in order. A fragment that is not
/// blank is a unit. So is a blank one where runs are not squeezed. Where they
/// are, every maximal run of blank fragments is one unit, a single line feed,
/// which here stands where the run begins.
pub open spec fn units(flags: Flags, frags: Seq<Seq<char>>) -> Seq<Unit>
    decreases frags.len(),
{
    if frags.len() == 0 {
        seq![]
    } else {
        let before = frags.drop_last();
        if !flags.squeeze || is_line(frags.last()) {
            units(flags, before).push(fragment_unit(flags, frags.last()))
        } else if before.len() > 0 && is_blank(before.last()) {
            units(flags, before)
        } else {
            units(flags, before).push(squeezed_unit())
        }
    }
}

/// The units of the first fragments of a text are the first units of the
/// text: what follows a fragment never changes what was emitted before it.
pub proof fn lemma_units_prefix(flags: Flags, first: Seq<Seq<char>>, rest: Seq<Seq<char>>)
    ensures
        units(flags, first).is_prefix_of(units(flags, first + rest)),
    decreases rest.len(),
{
    if rest.len() > 0 {
        lemma_units_prefix(flags, first, rest.drop_last());
        assert((first + rest).drop_last() =~= first + rest.drop_last());
    }
}

/// The units of two stretches of fragments are those of the first and then
/// those of the second, unless a squeezed run of blank fragments reaches from
/// the one into the other.
pub proof fn lemma_units_concat(flags: Flags, first: Seq<Seq<char>>, second: Seq<Seq<char>>)
    requires
        !(flags.squeeze && first.len() > 0 && second.len() > 0 && is_blank(first.last())
            && is_blank(second.first())),
    ensures
        units(flags, first + second) == units(flags, first) + units(flags, second),
    decreases second.len(),
{
    if second.len() > 0 {
        let shorter = second.drop_last();
        lemma_units_concat(flags, first, shorter);
        assert((first + second).drop_last() =~= first + shorter);
    }
}

/// Where no fragment is blank, squeezing changes nothing: the same units are
/// emitted with it and without it.
pub proof fn lemma_squeeze_without_blank(flags: Flags, frags: Seq<Seq<char>>)
    requires
        forall|i: int| 0 <= i < frags.len() ==> is_line(#[trigger] frags[i]),
    ensures
        units(Flags { squeeze: true, ..flags }, frags) == units(
            Flags { squeeze: false, ..flags },
            frags,
        ),
    decreases frags.len(),
{
    if frags.len() > 0 {
        let before = frags.drop_last();
        assert forall|i: int| 0 <= i < before.len() implies is_line(#[trigger] before[i]) by {
            assert(before[i] == frags[i]);
        }
        lemma_squeeze_without_blank(flags, before);
    }
}

/// A run of blank fragments is emitted as one unit, a single line feed,
/// where runs are squeezed, and else as its fragments, one unit each. So it
/// is between the fragments `before` it and those `after` it, where it is a
/// whole run: where no blank fragment stands next to it.
pub proof fn lemma_blank_run(
    flags: Flags,
    before: Seq<Seq<char>>,
    run: Seq<Seq<char>>,
    after: Seq<Seq<char>>,
)
    requires
        run.len() >= 1,
        forall|i: int| 0 <= i < run.len() ==> is_blank(#[trigger] run[i]),
        before.len() > 0 ==> is_line(before.last()),
        after.len() > 0 ==> is_line(after.first()),
    ensures
        flags.squeeze ==> units(flags, run) == seq![squeezed_unit()],
        !flags.squeeze ==> units(flags, run) == run.map_values(
            |fragment: Seq<char>| fragment_unit(flags, fragment),
        ),
        units(flags, before + run + after) == units(flags, before) + units(flags, run) + units(
            flags,
            after,
        ),
    decreases run.len(),
{
    let shorter = run.drop_last();
    if shorter.len() > 0 {
        assert forall|i: int| 0 <= i < shorter.len() implies is_blank(#[trigger] shorter[i]) by {
            assert(shorter[i] == run[i]);
        }
        lemma_blank_run(flags, Seq::empty(), shorter, Seq::empty());
    } else {
        assert(units(flags, shorter) =~= Seq::<Unit>::empty());
    }
    if !flags.squeeze {
        assert(units(flags, run) =~= run.map_values(
            |fragment: Seq<char>| fragment_unit(flags, fragment),
        ));
    }
    lemma_units_concat(flags, before, run);
    lemma_units_concat(flags, before + run, after);
}

} // verus!
