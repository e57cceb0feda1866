//! Blank fragments: those that hold nothing but white space.

use vstd::prelude::*;

verus! {

/// Whether `c` has the Unicode property `White_Space`: the controls from tab
/// to carriage return, the space, next line, the no-break space, and the
/// spaces and separators beyond them.
pub open spec fn is_whitespace(c: char) -> bool {
    let code = c as u32;
    ||| 0x09 <= code <= 0x0d
    ||| code == 0x20
    ||| code == 0x85
    ||| code == 0xa0
    ||| code == 0x1680
    ||| 0x2000 <= code <= 0x200a
    ||| code == 0x2028
    ||| code == 0x2029
    ||| code == 0x202f
    ||| code == 0x205f
    ||| code == 0x3000
}

/// `char::is_whitespace` reports the Unicode property `White_Space`.
pub assume_specification[ char::is_whitespace ](c: char) -> (b: bool)
    ensures
        b == is_whitespace(c),
;

/// A fragment is blank when trimming white space off it leaves nothing:
/// every character of it is white space.
pub open spec fn is_blank(fragment: Seq<char>) -> bool {
    forall|i: int| 0 <= i < fragment.len() ==> is_whitespace(#[trigger] fragment[i])
}

/// A fragment that is not blank is a line.
pub open spec fn is_line(fragment: Seq<char>) -> bool {
    !is_blank(fragment)
}

/// Whether `fragment` is blank.
pub fn is_blank_fragment(fragment: &str) -> (b: bool)
    ensures
        b == is_blank(fragment@),
{
    for c in it: fragment.chars()
        invariant
            it.seq() == fragment@,
            forall|i: int| 0 <= i < it.index() ==> is_whitespace(#[trigger] fragment@[i]),
    {
        if !c.is_whitespace() {
            return false;
        }
    }
    true
}

} // verus!
