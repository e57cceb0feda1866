//! The renderer of one file's contents.

use crate::decimal::push_decimal;
use crate::escape::{escaped, lemma_escaped_push};
use crate::highlight::{
    adapter_leaves, adapter_shows, highlight_line, taken_from, terminal_text, RenderError,
};
use crate::number::numbered_line;
use crate::pass::RenderPass;
use crate::render::{
    is_painting, is_pass, lemma_painting_plain, lemma_rendered_next, plain, rendered, shown_unit,
    state_before, texts,
};
use crate::segment::fragments;
use crate::squeeze::{blank_run_text, newlines, units};
use crate::strings::lemma_encode_utf8_concat;
use crate::test_writer::TestWriter;
use syntect::easy::HighlightLines;
use syntect::parsing::SyntaxSet;
use vstd::prelude::*;
use vstd::string::*;
use vstd::utf8::encode_utf8;

verus! {

/// The four switches of a rendering.
pub struct Flags {
    /// Prefix every line that is not blank with its number.
    pub line_numbers: bool,
    /// Show every run of blank lines as one empty line.
    pub squeeze: bool,
    /// Show control characters as a caret and a letter.
    pub show_non_printing: bool,
    /// Colour the text by its syntax.
    pub syntax_highlight: bool,
}

/// Renders the contents of files under one fixed set of switches.
#[derive(Copy, Clone)]
pub struct FileParser {
    line_numbers: bool,
    squeeze: bool,
    show_non_printing: bool,
    syntax_highlight: bool,
}

impl View for FileParser {
    type V = Flags;

    closed spec fn view(&self) -> Flags {
        Flags {
            line_numbers: self.line_numbers,
            squeeze: self.squeeze,
            show_non_printing: self.show_non_printing,
            syntax_highlight: self.syntax_highlight,
        }
    }
}

impl FileParser {
    /// A renderer with the given switches.
    pub fn new(
        number_lines: bool,
        squeeze_lines: bool,
        highlight_lines: bool,
        show_non_printing_chars: bool,
    ) -> (parser: FileParser)
        ensures
            parser@ == (Flags {
                line_numbers: number_lines,
                squeeze: squeeze_lines,
                show_non_printing: show_non_printing_chars,
                syntax_highlight: highlight_lines,
            }),
    {
        FileParser {
            line_numbers: number_lines,
            squeeze: squeeze_lines,
            show_non_printing: show_non_printing_chars,
            syntax_highlight: highlight_lines,
        }
    }

    /// Whether runs of blank lines are squeezed.
    pub(crate) fn squeeze(self) -> (on: bool)
        ensures
            on == self@.squeeze,
    {
        self.squeeze
    }

    /// The text of `line` as it is shown: escaped where control characters
    /// are to be shown, and unchanged where they are not.
    pub fn replace_non_printing_characters(self, line: &str) -> (new_line: String)
        ensures
            new_line@ == (if self@.show_non_printing {
                escaped(line@)
            } else {
                line@
            }),
    {
        if self.show_non_printing {
            let mut new_line = String::new();
            proof {
                reveal_strlit("^K");
                reveal_strlit("^L");
                reveal_strlit("^N");
                reveal_strlit("^O");
                reveal_strlit("^E");
                reveal_strlit("^?");
            }
            for c in it: line.chars()
                invariant
                    it.seq() == line@,
                    new_line@ == escaped(line@.take(it.index())),
                    "^K"@ == seq!['^', 'K'],
                    "^L"@ == seq!['^', 'L'],
                    "^N"@ == seq!['^', 'N'],
                    "^O"@ == seq!['^', 'O'],
                    "^E"@ == seq!['^', 'E'],
                    "^?"@ == seq!['^', '?'],
            {
                proof {
                    lemma_escaped_push(line@.take(it.index()), c);
                    assert(line@.take(it.index() + 1) =~= line@.take(it.index()).push(c));
                }
                match c {
                    '\x0b' => new_line.append("^K"),
                    '\x0c' => new_line.append("^L"),
                    '\x0e' => new_line.append("^N"),
                    '\x0f' => new_line.append("^O"),
                    '\x1b' => new_line.append("^E"),
                    '\x7f' => new_line.append("^?"),
                    _ => new_line.push(c),
                }
            }
            assert(line@.take(line@.len() as int) =~= line@);
            return new_line;
        }
        line.to_owned()
    }

    /// The text that a pending run of `count` blank fragments is flushed
    /// as: one line feed where runs are squeezed, else `count` of them.
    pub fn blank_run(self, count: usize) -> (text: String)
        ensures
            text@ == blank_run_text(self@.squeeze, count as nat),
    {
        let size: usize = if self.squeeze { 1 } else { count };
        let mut text = String::new();
        let mut i: usize = 0;
        while i < size
            invariant
                i <= size,
                text@ == newlines(i as nat),
            decreases size - i,
        {
            text.push('\n');
            i += 1;
        }
        text
    }

    /// The highlight adapter: `text` itself where nothing is highlighted,
    /// with the highlighter left alone; else what the highlighter makes of
    /// `text`, with its colour codes. It fails where the highlighter fails,
    /// and where the highlighter stops before the end of `text`.
    pub fn highlight(
        self,
        highlighter: &mut HighlightLines,
        ps: &SyntaxSet,
        text: String,
    ) -> (shown: Result<String, RenderError>)
        requires
            self@.syntax_highlight ==> taken_from(old(highlighter), ps),
        ensures
            self@.syntax_highlight ==> taken_from(final(highlighter), ps),
            *final(highlighter) == adapter_leaves(
                self@.syntax_highlight,
                *old(highlighter),
                *ps,
                text@,
            ),
            match adapter_shows(self@.syntax_highlight, *old(highlighter), *ps, text@) {
                Some(out) => shown matches Ok(made) && made@ == out,
                None => shown is Err,
            },
    {
        if self.syntax_highlight {
            let outcome = highlight_line(highlighter, ps, text.as_str());
            terminal_text(&text, outcome)
        } else {
            Ok(text)
        }
    }

    /// `line` behind `num` and a space where lines are numbered, else
    /// `line`.
    pub fn number_line(self, line: &str, num: usize) -> (numbered: String)
        ensures
            numbered@ == numbered_line(self@.line_numbers, num as nat, line@),
    {
        let mut numbered = String::new();
        if self.line_numbers {
            push_decimal(&mut numbered, num);
            numbered.push(' ');
        }
        numbered.append(line);
        assert(numbered@ =~= numbered_line(self@.line_numbers, num as nat, line@));
        numbered
    }

    /// Writes `line`, behind `num` and a space where lines are numbered.
    pub fn maybe_print_line_with_line_numbers(
        self,
        writer: &mut TestWriter,
        line: &str,
        num: &usize,
    )
        ensures
            final(writer)@ == old(writer)@ + encode_utf8(
                numbered_line(self@.line_numbers, *num as nat, line@),
            ),
    {
        let numbered = self.number_line(line, *num);
        writer.write_str(numbered.as_str());
    }

    /// Renders `contents` into `writer` in one pass: splits it into
    /// fragments, squeezes runs of blank ones, escapes, highlights and
    /// numbers what is emitted, and writes each unit as soon as it is made.
    ///
    /// Blank fragments are never numbered and take no number, squeezed or
    /// not. A run of blank fragments that is held back is flushed before the
    /// next line, or at the end of the text. Both counters start anew with
    /// every pass.
    ///
    /// Without highlighting the pass cannot fail, the highlighter is left
    /// alone, and what is written is `plain`. With it, `highlighter` has to
    /// be one made for a syntax of `ps`; the pass stops at the first unit on
    /// which the highlighter fails or stops early, with the units before it
    /// written.
    pub fn print_contents(
        self,
        writer: &mut TestWriter,
        highlighter: &mut HighlightLines,
        ps: &SyntaxSet,
        contents: String,
    ) -> (result: Result<(), RenderError>)
        requires
            self@.syntax_highlight ==> taken_from(old(highlighter), ps),
        ensures
            self@.syntax_highlight ==> taken_from(final(highlighter), ps),
            exists|painted: Seq<Seq<char>>, out: Seq<char>|
                {
                    &&& #[trigger] is_pass(
                        self@,
                        *old(highlighter),
                        *ps,
                        contents@,
                        painted,
                        out,
                    )
                    &&& final(writer)@ == old(writer)@ + encode_utf8(out)
                    &&& result is Ok <==> painted.len() == units(
                        self@,
                        fragments(contents@),
                    ).len()
                    &&& *final(highlighter) == state_before(
                        self@.syntax_highlight,
                        *old(highlighter),
                        *ps,
                        texts(units(self@, fragments(contents@))),
                        if result is Ok {
                            painted.len()
                        } else {
                            (painted.len() + 1) as nat
                        },
                    )
                },
            !self@.syntax_highlight ==> result is Ok && final(writer)@ == old(writer)@
                + encode_utf8(plain(self@, contents@)),
    {
        let mut pass = RenderPass::new(self, contents.as_str());
        let ghost us = units(self@, fragments(contents@));
        let ghost start = *highlighter;
        let ghost mut painted = Seq::<Seq<char>>::empty();
        assert(writer@ =~= old(writer)@ + encode_utf8(
            rendered(self@.line_numbers, us.take(0), painted),
        ));
        loop
            invariant
                pass.wf(),
                pass.flags() == self@,
                pass.text() == contents@,
                pass.emitted() == painted.len(),
                us == units(self@, fragments(contents@)),
                start == *old(highlighter),
                painted.len() <= us.len(),
                self@.syntax_highlight ==> taken_from(highlighter, ps),
                *highlighter == state_before(
                    self@.syntax_highlight,
                    start,
                    *ps,
                    texts(us),
                    painted.len(),
                ),
                is_painting(self@.syntax_highlight, start, *ps, texts(us), painted),
                writer@ == old(writer)@ + encode_utf8(
                    rendered(self@.line_numbers, us.take(painted.len() as int), painted),
                ),
            ensures
                painted.len() == us.len(),
            decreases us.len() - painted.len(),
        {
            let ghost written = rendered(
                self@.line_numbers,
                us.take(painted.len() as int),
                painted,
            );
            match pass.next_unit(highlighter, ps) {
                Ok(Some(unit)) => {
                    writer.write_str(unit.as_str());
                    proof {
                        let shown = shown_unit(
                            self@.syntax_highlight,
                            start,
                            *ps,
                            texts(us),
                            painted.len(),
                        )->0;
                        lemma_rendered_next(self@.line_numbers, us, painted, shown);
                        lemma_encode_utf8_concat(written, unit@);
                        painted = painted.push(shown);
                    }
                },
                Ok(None) => {
                    break ;
                },
                Err(failure) => {
                    assert(is_pass(self@, start, *ps, contents@, painted, written));
                    return Err(failure);
                },
            }
        }
        proof {
            assert(us.take(painted.len() as int) =~= us);
            assert(is_pass(
                self@,
                start,
                *ps,
                contents@,
                painted,
                rendered(self@.line_numbers, us, painted),
            ));
            if !self@.syntax_highlight {
                lemma_painting_plain(start, *ps, texts(us), painted);
            }
        }
        Ok(())
    }
}

} // verus!
