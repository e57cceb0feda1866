//! Line numberer: which units are counted, and the number each gets.

use crate::blank::is_line;
use crate::decimal::decimal;
use crate::file_parser::Flags;
use crate::squeeze::{fragment_unit, lemma_units_prefix, squeezed_unit, units, Unit};
use vstd::prelude::*;

verus! {

/// How many of `units` are counted.
pub open spec fn counted(units: Seq<Unit>) -> nat {
    units.filter(|unit: Unit| unit.counted).len()
}

/// The number of the line that follows the units `before`: one more than the
/// counted lines among them.
pub open spec fn line_number(before: Seq<Unit>) -> nat {
    counted(before) + 1
}

/// `line` behind `number` and a space where `numbered` is set, else `line`.
pub open spec fn numbered_line(numbered: bool, number: nat, line: Seq<char>) -> Seq<char> {
    if numbered {
        decimal(number) + seq![' '] + line
    } else {
        line
    }
}

/// One unit more raises the count by one where it is counted.
pub proof fn lemma_counted_push(units: Seq<Unit>, unit: Unit)
    ensures
        counted(units.push(unit)) == counted(units) + (if unit.counted {
            1nat
        } else {
            0nat
        }),
{
    reveal(Seq::filter);
    assert(units.push(unit).drop_last() =~= units);
}

/// As many units are counted as there are fragments that are not blank,
/// with squeezing and without it.
pub proof fn lemma_counted_units(flags: Flags, frags: Seq<Seq<char>>)
    ensures
        counted(units(flags, frags)) == frags.filter(|fragment: Seq<char>| is_line(fragment)).len(),
    decreases frags.len(),
{
    reveal(Seq::filter);
    if frags.len() > 0 {
        lemma_counted_units(flags, frags.drop_last());
        let emitted = units(flags, frags.drop_last());
        lemma_counted_push(emitted, squeezed_unit());
        lemma_counted_push(emitted, fragment_unit(flags, frags.last()));
    }
}

/// A fragment that is not blank is emitted as a counted unit, and the number
/// of its line is one more than the number of fragments before it that are
/// not blank: numbers start at one and go up by one from each such fragment
/// to the next, with squeezing and without it.
pub proof fn lemma_line_number_of_fragment(flags: Flags, frags: Seq<Seq<char>>, i: int)
    requires
        0 <= i < frags.len(),
        is_line(frags[i]),
    ensures
        ({
            let emitted = units(flags, frags);
            let k = units(flags, frags.take(i)).len() as int;
            &&& k < emitted.len()
            &&& emitted[k] == fragment_unit(flags, frags[i])
            &&& emitted[k].counted
            &&& emitted.take(k) == units(flags, frags.take(i))
            &&& line_number(emitted.take(k)) == frags.take(i).filter(
                |fragment: Seq<char>| is_line(fragment),
            ).len() + 1
        }),
{
    let emitted = units(flags, frags);
    let upto = frags.take(i + 1);
    let earlier = units(flags, frags.take(i));
    let k = earlier.len() as int;
    assert(upto.drop_last() =~= frags.take(i));
    assert(upto + frags.skip(i + 1) =~= frags);
    lemma_units_prefix(flags, upto, frags.skip(i + 1));
    assert(emitted[k] == units(flags, upto)[k]);
    lemma_counted_units(flags, frags.take(i));
}

} // verus!
