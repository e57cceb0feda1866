//! One pass over a text, unit by unit.

use crate::blank::{is_blank, is_blank_fragment, is_line};
use crate::file_parser::{FileParser, Flags};
use crate::highlight::{adapter_leaves, adapter_shows, taken_from, RenderError};
use crate::number::{counted, lemma_counted_push};
use crate::render::unit_output;
use crate::segment::{fragments, lemma_first_fragment_len, lines_of, next_line, remaining_text};
use crate::squeeze::{fragment_unit, lemma_units_prefix, squeezed_unit, units, Unit};
use crate::strings::lemma_encode_utf8_len;
use syntect::easy::HighlightLines;
use syntect::parsing::SyntaxSet;
use syntect::util::LinesWithEndings;
use vstd::prelude::*;

verus! {

/// A pass over one text: it hands out the units that the text is emitted
/// as, one at a time and each as it is written. It holds the two counters of
/// the pass: the blank fragments that are held back, and the lines that were
/// numbered.
pub struct RenderPass<'a> {
    parser: FileParser,
    lines: LinesWithEndings<'a>,
    /// What the text holds in bytes: it has no more fragments than that.
    size: usize,
    consecutive_blank_lines: usize,
    written: usize,
    /// The fragment that was read last, where it is still to be emitted.
    carried: Option<&'a str>,
    /// Whether the carried fragment is a line that is counted.
    carried_counted: bool,
    text: Ghost<Seq<char>>,
    done: Ghost<Seq<Seq<char>>>,
    emitted: Ghost<nat>,
}

impl<'a> RenderPass<'a> {
    /// The switches of the pass.
    pub closed spec fn flags(&self) -> Flags {
        self.parser@
    }

    /// The text of the pass.
    pub closed spec fn text(&self) -> Seq<char> {
        self.text@
    }

    /// How many units the pass has handed out.
    pub closed spec fn emitted(&self) -> nat {
        self.emitted@
    }

    /// The units that the text of the pass is emitted as.
    pub open spec fn units(&self) -> Seq<Unit> {
        units(self.flags(), fragments(self.text()))
    }

    /// The units of the fragments read, as they stand among the units of
    /// the text: those handed out, then the unit of a run that is held back,
    /// then the unit of the fragment that is carried.
    spec fn pending(&self) -> Seq<Unit> {
        (if self.consecutive_blank_lines > 0 {
            seq![squeezed_unit()]
        } else {
            Seq::<Unit>::empty()
        }) + (match self.carried {
            Some(line) => seq![fragment_unit(self.parser@, line@)],
            None => Seq::<Unit>::empty(),
        })
    }

    /// Whether the pass stands right: the counters are those of the
    /// fragments read so far, and the units handed out are the first units
    /// of the text.
    pub closed spec fn wf(&self) -> bool {
        let all = units(self.parser@, fragments(self.text@));
        let done = self.done@;
        let rest = remaining_text(&self.lines);
        let last_is_blank = done.len() > 0 && is_blank(done.last());
        &&& fragments(self.text@) == done + fragments(rest)
        &&& done.len() + rest.len() <= self.size
        &&& self.written + self.consecutive_blank_lines + (if self.carried is Some {
            1nat
        } else {
            0nat
        }) <= done.len()
        &&& self.emitted@ <= all.len()
        &&& self.written == counted(all.take(self.emitted@ as int))
        &&& units(self.parser@, done) == all.take(self.emitted@ as int) + self.pending()
        &&& self.consecutive_blank_lines > 0 ==> self.parser@.squeeze
        &&& match self.carried {
            Some(line) => {
                &&& done.len() > 0
                &&& line@ == done.last()
                &&& !(self.parser@.squeeze && is_blank(line@))
                &&& self.carried_counted == is_line(line@)
            },
            None => {
                &&& self.consecutive_blank_lines > 0 ==> last_is_blank
                &&& rest.len() > 0 && self.parser@.squeeze && last_is_blank
                    ==> self.consecutive_blank_lines > 0
            },
        }
    }

    /// A pass over `text` under the switches of `parser`, with nothing
    /// handed out yet.
    pub fn new(parser: FileParser, text: &'a str) -> (pass: Self)
        ensures
            pass.wf(),
            pass.flags() == parser@,
            pass.text() == text@,
            pass.emitted() == 0,
    {
        // No more fragments than bytes: the two counters cannot overflow.
        let size: usize = text.as_bytes().len();
        let pass = RenderPass {
            parser,
            lines: lines_of(text),
            size,
            consecutive_blank_lines: 0,
            written: 0,
            carried: None,
            carried_counted: false,
            text: Ghost(text@),
            done: Ghost(Seq::empty()),
            emitted: Ghost(0),
        };
        proof {
            lemma_encode_utf8_len(text@);
            reveal(Seq::filter);
            assert(pass.done@ + fragments(text@) =~= fragments(text@));
            assert(units(parser@, pass.done@) =~= units(parser@, fragments(text@)).take(0)
                + pass.pending());
        }
        pass
    }

    /// Reads on to the next fragment that is emitted by itself and carries
    /// it, counting the blank fragments that are held back on the way.
    fn read_on(&mut self)
        requires
            old(self).wf(),
            old(self).carried is None,
        ensures
            final(self).wf(),
            final(self).parser == old(self).parser,
            final(self).text == old(self).text,
            final(self).emitted == old(self).emitted,
            final(self).carried is None ==> remaining_text(&final(self).lines).len() == 0,
    {
        loop
            invariant_except_break
                self.carried is None,
            invariant
                self.wf(),
                self.parser == old(self).parser,
                self.text == old(self).text,
                self.emitted == old(self).emitted,
            ensures
                self.wf(),
                self.parser == old(self).parser,
                self.text == old(self).text,
                self.emitted == old(self).emitted,
                self.carried is None ==> remaining_text(&self.lines).len() == 0,
            decreases remaining_text(&self.lines).len(),
        {
            let ghost rest = remaining_text(&self.lines);
            let ghost before = self.done@;
            match next_line(&mut self.lines) {
                None => {
                    break ;
                },
                Some(line) => {
                    proof {
                        lemma_first_fragment_len(rest);
                        assert(fragments(self.text@) =~= before.push(line@) + fragments(
                            remaining_text(&self.lines),
                        ));
                        assert(before.push(line@).drop_last() =~= before);
                    }
                    self.done = Ghost(before.push(line@));
                    let blank_line = is_blank_fragment(line);
                    if blank_line && self.parser.squeeze() {
                        self.consecutive_blank_lines += 1;
                        assert(units(self.parser@, self.done@) =~= units(
                            self.parser@,
                            fragments(self.text@),
                        ).take(self.emitted@ as int) + self.pending());
                    } else {
                        self.carried = Some(line);
                        self.carried_counted = !blank_line;
                        assert(units(self.parser@, self.done@) =~= units(
                            self.parser@,
                            fragments(self.text@),
                        ).take(self.emitted@ as int) + self.pending());
                        break ;
                    }
                },
            }
        }
    }

    /// The next unit of the pass as it is written, or `None` once all units
    /// were handed out. A run of blank fragments that is held back comes
    /// before the line that ends it, and at the end of the text.
    ///
    /// With highlighting, `highlighter` has to be one made for a syntax of
    /// `ps`. Where the highlighter fails on the unit or stops early, the
    /// unit is not handed out and the pass stays where it is.
    pub fn next_unit(
        &mut self,
        highlighter: &mut HighlightLines,
        ps: &SyntaxSet,
    ) -> (result: Result<Option<String>, RenderError>)
        requires
            old(self).wf(),
            old(self).flags().syntax_highlight ==> taken_from(old(highlighter), ps),
        ensures
            final(self).wf(),
            final(self).flags() == old(self).flags(),
            final(self).text() == old(self).text(),
            old(self).flags().syntax_highlight ==> taken_from(final(highlighter), ps),
            ({
                let flags = old(self).flags();
                let all = old(self).units();
                let k = old(self).emitted() as int;
                if k < all.len() {
                    &&& *final(highlighter) == adapter_leaves(
                        flags.syntax_highlight,
                        *old(highlighter),
                        *ps,
                        all[k].text,
                    )
                    &&& match adapter_shows(
                        flags.syntax_highlight,
                        *old(highlighter),
                        *ps,
                        all[k].text,
                    ) {
                        Some(shown) => {
                            &&& result matches Ok(Some(unit))
                            &&& unit@ == unit_output(flags.line_numbers, all.take(k), all[k], shown)
                            &&& final(self).emitted() == k + 1
                        },
                        None => result is Err && final(self).emitted() == k,
                    }
                } else {
                    &&& result matches Ok(None)
                    &&& final(self).emitted() == k
                    &&& *final(highlighter) == *old(highlighter)
                }
            }),
    {
        if self.carried.is_none() {
            self.read_on();
        }
        let ghost all = units(self.parser@, fragments(self.text@));
        let ghost k = self.emitted@ as int;
        proof {
            lemma_units_prefix(self.parser@, self.done@, fragments(remaining_text(&self.lines)));
            let read = units(self.parser@, self.done@);
            assert(read =~= all.subrange(0, read.len() as int));
            if self.pending().len() > 0 {
                assert(all[k] == read[k]);
            } else {
                assert(fragments(self.text@) =~= self.done@);
            }
        }
        if self.consecutive_blank_lines > 0 {
            let blank_lines = self.parser.blank_run(self.consecutive_blank_lines);
            let shown = self.parser.highlight(highlighter, ps, blank_lines)?;
            self.consecutive_blank_lines = 0;
            self.emitted = Ghost((k + 1) as nat);
            proof {
                lemma_counted_push(all.take(k), all[k]);
                assert(all.take(k + 1) =~= all.take(k).push(all[k]));
                assert(units(self.parser@, self.done@) =~= all.take(k + 1) + self.pending());
            }
            return Ok(Some(shown));
        }
        match self.carried {
            None => Ok(None),
            Some(line) => {
                let shown_line = self.parser.replace_non_printing_characters(line);
                let shown = self.parser.highlight(highlighter, ps, shown_line)?;
                let unit = if self.carried_counted {
                    let numbered = self.parser.number_line(shown.as_str(), self.written + 1);
                    self.written += 1;
                    numbered
                } else {
                    shown
                };
                self.carried = None;
                self.emitted = Ghost((k + 1) as nat);
                proof {
                    lemma_counted_push(all.take(k), all[k]);
                    assert(all.take(k + 1) =~= all.take(k).push(all[k]));
                    assert(units(self.parser@, self.done@) =~= all.take(k + 1) + self.pending());
                }
                Ok(Some(unit))
            },
        }
    }
}

} // verus!
