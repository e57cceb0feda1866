//! Non-printing escaper: six control characters, each shown as a caret and a
//! letter.

use vstd::prelude::*;

verus! {

/// The letter that is shown after the caret for a control character that is
/// escaped; `None` for every other character.
pub open spec fn mnemonic(c: char) -> Option<char> {
    if c == '\x0b' {
        Some('K')
    } else if c == '\x0c' {
        Some('L')
    } else if c == '\x0e' {
        Some('N')
    } else if c == '\x0f' {
        Some('O')
    } else if c == '\x1b' {
        Some('E')
    } else if c == '\x7f' {
        Some('?')
    } else {
        None
    }
}

/// What stands for `c` in escaped text: a caret and the mnemonic, or `c`.
pub open spec fn shown(c: char) -> Seq<char> {
    match mnemonic(c) {
        Some(letter) => seq!['^', letter],
        None => seq![c],
    }
}

/// `text` with every escaped control character replaced by its two
/// characters, and every other character kept.
pub open spec fn escaped(text: Seq<char>) -> Seq<char> {
    text.map_values(|c: char| shown(c)).flatten()
}

/// Whether `text` holds none of the escaped control characters.
pub open spec fn is_printable(text: Seq<char>) -> bool {
    forall|i: int| 0 <= i < text.len() ==> mnemonic(#[trigger] text[i]) is None
}

/// Escaping goes character by character.
pub proof fn lemma_escaped_push(text: Seq<char>, c: char)
    ensures
        escaped(text.push(c)) == escaped(text) + shown(c),
{
    let each = |c: char| shown(c);
    assert(text.push(c).map_values(each) =~= text.map_values(each).push(each(c)));
    text.map_values(each).lemma_flatten_push(each(c));
}

/// Escaping leaves alone a text that holds none of the six control characters.
pub proof fn lemma_escaped_printable(text: Seq<char>)
    requires
        is_printable(text),
    ensures
        escaped(text) == text,
    decreases text.len(),
{
    if text.len() > 0 {
        let front = text.drop_last();
        lemma_escaped_printable(front);
        lemma_escaped_push(front, text.last());
        assert(text =~= front.push(text.last()));
    }
}

/// Escaped text holds none of the six control characters.
pub proof fn lemma_escaped_is_printable(text: Seq<char>)
    ensures
        is_printable(escaped(text)),
    decreases text.len(),
{
    if text.len() > 0 {
        let front = text.drop_last();
        lemma_escaped_is_printable(front);
        lemma_escaped_push(front, text.last());
        assert(text =~= front.push(text.last()));
    }
}

/// Escaping is idempotent: a second pass finds nothing left to replace.
pub proof fn lemma_escaped_idempotent(text: Seq<char>)
    ensures
        escaped(escaped(text)) == escaped(text),
{
    lemma_escaped_is_printable(text);
    lemma_escaped_printable(escaped(text));
}

} // verus!
