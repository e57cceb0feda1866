//! Highlight adapter: a text as coloured spans, and the spans as text with
//! terminal colour codes.

use crate::decimal::decimal;
use syntect::easy::HighlightLines;
use syntect::highlighting::{Color, FontStyle, Style, Theme};
use syntect::parsing::SyntaxSet;
use syntect::util::as_24_bit_terminal_escaped;
use vstd::prelude::*;
use vstd::string::*;

verus! {

/// The line highlighter of syntect: a syntax, a theme and the state that the
/// lines seen so far have left.
#[verifier::external_type_specification]
#[verifier::external_body]
pub struct ExHighlightLines<'a>(syntect::easy::HighlightLines<'a>);

/// The syntax definitions of syntect.
#[verifier::external_type_specification]
#[verifier::external_body]
pub struct ExSyntaxSet(syntect::parsing::SyntaxSet);

/// A theme of syntect: the colours of the scopes.
#[verifier::external_type_specification]
#[verifier::external_body]
pub struct ExTheme(syntect::highlighting::Theme);

/// What syntect reports when it fails.
#[verifier::external_type_specification]
#[verifier::external_body]
pub struct ExError(syntect::Error);

/// Whether `syntax_set` is a set as syntect ships it: its contexts are
/// linked to one another, and its patterns are ones that syntect has tested.
pub uninterp spec fn is_loaded(syntax_set: &SyntaxSet) -> bool;

/// Whether `highlighter` was made for a syntax of `syntax_set`, a set as
/// syntect ships it, and has since seen lines with that set only. Such a
/// highlighter finds in the set every context and pattern that it asks for.
pub uninterp spec fn taken_from(highlighter: &HighlightLines, syntax_set: &SyntaxSet) -> bool;

/// What `highlighter` answers for `line` with `syntax_set`: its spans, or
/// `None` where it fails; and the highlighter as the line leaves it.
pub uninterp spec fn highlighted(
    highlighter: HighlightLines,
    syntax_set: SyntaxSet,
    line: Seq<char>,
) -> (Option<Seq<Span>>, HighlightLines);

/// A colour: red, green, blue and opacity.
#[derive(Clone, Copy, Debug)]
pub struct Rgba {
    pub r: u8,
    pub g: u8,
    pub b: u8,
    pub a: u8,
}

/// A piece of text and the style it is shown in.
#[derive(Debug)]
pub struct Span {
    pub foreground: Rgba,
    pub background: Rgba,
    /// Bold is 1, underline 2, italic 4.
    pub font_style: u8,
    pub text: String,
}

/// Why a rendering stopped.
#[derive(Debug)]
pub enum RenderError {
    /// The highlighter failed.
    Highlight(syntect::Error),
    /// The highlighter stopped before the end of the text it was given.
    Incomplete,
}

/// The texts of `spans`, one after the other.
pub open spec fn span_texts(spans: Seq<Span>) -> Seq<char> {
    spans.map_values(|span: Span| span.text@).flatten()
}

/// What a highlighter may answer for `text`: spans whose texts, put together,
/// are `text` or, where it stopped early, a beginning of it.
pub open spec fn highlights(text: Seq<char>, spans: Seq<Span>) -> bool {
    span_texts(spans).is_prefix_of(text)
}

/// What is shown for an answer of the highlighter to `text`: the spans with
/// their colour codes, background included, where they hold all of `text`;
/// nothing where the highlighter failed or stopped early.
pub open spec fn shown_answer(text: Seq<char>, answer: Option<Seq<Span>>) -> Option<Seq<char>> {
    match answer {
        Some(spans) => if span_texts(spans) == text {
            Some(spans_escaped(spans, true))
        } else {
            None
        },
        None => None,
    }
}

/// What leaves the highlight adapter for `text`: `text` itself where nothing
/// is highlighted; else what is shown for the highlighter's answer to it,
/// and nothing where the highlighter fails on it or stops early.
pub open spec fn adapter_shows(
    highlighting: bool,
    highlighter: HighlightLines,
    syntax_set: SyntaxSet,
    text: Seq<char>,
) -> Option<Seq<char>> {
    if highlighting {
        shown_answer(text, highlighted(highlighter, syntax_set, text).0)
    } else {
        Some(text)
    }
}

/// The highlighter as the highlight adapter leaves it after `text`: as it
/// was where nothing is highlighted, else as `text` left it.
pub open spec fn adapter_leaves<'a>(
    highlighting: bool,
    highlighter: HighlightLines<'a>,
    syntax_set: SyntaxSet,
    text: Seq<char>,
) -> HighlightLines<'a> {
    if highlighting {
        highlighted(highlighter, syntax_set, text).1
    } else {
        highlighter
    }
}

/// One channel of a foreground colour as it is shown over a background:
/// itself where the foreground is opaque, else the two mixed by the
/// foreground's opacity.
pub open spec fn blended(fg: u8, bg: u8, alpha: u8) -> nat {
    if alpha == 255 {
        fg as nat
    } else {
        ((fg * alpha + bg * (255 - alpha)) / 255) as nat
    }
}

/// The escape sequence that sets a 24-bit colour: `layer` is 38 for the
/// foreground and 48 for the background.
pub open spec fn colour_code(layer: nat, r: nat, g: nat, b: nat) -> Seq<char> {
    seq!['\x1b', '['] + decimal(layer) + seq![';', '2', ';'] + decimal(r) + seq![';'] + decimal(g)
        + seq![';'] + decimal(b) + seq!['m']
}

/// The colour codes that stand before the text of `span`.
pub open spec fn span_codes(span: Span, bg: bool) -> Seq<char> {
    let back = span.background;
    let fore = span.foreground;
    (if bg {
        colour_code(48, back.r as nat, back.g as nat, back.b as nat)
    } else {
        Seq::<char>::empty()
    }) + colour_code(
        38,
        blended(fore.r, back.r, fore.a),
        blended(fore.g, back.g, fore.a),
        blended(fore.b, back.b, fore.a),
    )
}

/// `spans` as terminal text: before the text of each span its colour codes.
/// No code resets the colours at the end.
pub open spec fn spans_escaped(spans: Seq<Span>, bg: bool) -> Seq<char> {
    spans.map_values(|span: Span| span_codes(span, bg) + span.text@).flatten()
}

/// `SyntaxSet::load_defaults_newlines` unpacks the syntaxes that syntect
/// ships, for lines that keep their line feed.
#[verifier::external_body]
pub(crate) fn load_defaults_newlines() -> (syntax_set: SyntaxSet)
    ensures
        is_loaded(&syntax_set),
{
    SyntaxSet::load_defaults_newlines()
}

/// `SyntaxSet::find_syntax_by_name` finds the syntax of that name in the set,
/// if it holds one, and `HighlightLines::new` makes a highlighter for that
/// syntax and `theme`, which has seen no line yet.
#[verifier::external_body]
pub(crate) fn highlighter_by_name<'a>(
    syntax_set: &SyntaxSet,
    name: &str,
    theme: &'a Theme,
) -> (made: Option<HighlightLines<'a>>)
    requires
        is_loaded(syntax_set),
    ensures
        made matches Some(highlighter) ==> taken_from(&highlighter, syntax_set),
{
    syntax_set.find_syntax_by_name(name).map(|syntax| HighlightLines::new(syntax, theme))
}

/// `HighlightLines::highlight_line` splits `line` into spans by syntax and
/// theme and moves the highlighter's state past the line; what it answers
/// and where it leaves the highlighter follow from the highlighter, the set
/// and the line alone. The spans are consecutive pieces of `line` from its
/// start; they reach its end unless the highlighter stopped on a scope that
/// it could not restore. With another set than the one that the
/// highlighter's syntax was taken from, syntect may panic: that is left out.
#[verifier::external_body]
pub(crate) fn highlight_line(
    highlighter: &mut HighlightLines,
    syntax_set: &SyntaxSet,
    line: &str,
) -> (outcome: Result<Vec<Span>, syntect::Error>)
    requires
        taken_from(old(highlighter), syntax_set),
    ensures
        taken_from(final(highlighter), syntax_set),
        highlighted(*old(highlighter), *syntax_set, line@) == (
            match outcome {
                Ok(spans) => Some(spans@),
                Err(_) => None,
            },
            *final(highlighter),
        ),
        outcome matches Ok(spans) ==> highlights(line@, spans@),
{
    let ranges = highlighter.highlight_line(line, syntax_set)?;
    Ok(ranges.into_iter().map(|(style, text)| {
        let (fore, back) = (style.foreground, style.background);
        Span {
            foreground: Rgba { r: fore.r, g: fore.g, b: fore.b, a: fore.a },
            background: Rgba { r: back.r, g: back.g, b: back.b, a: back.a },
            font_style: style.font_style.bits(),
            text: text.to_string(),
        }
    }).collect())
}

/// `as_24_bit_terminal_escaped` writes, for each span in turn, the code of
/// its background colour where `bg` is set, the code of its foreground colour
/// as blended over the background, and its text.
#[verifier::external_body]
pub(crate) fn terminal_escaped(spans: &Vec<Span>, bg: bool) -> (text: String)
    ensures
        text@ == spans_escaped(spans@, bg),
{
    let ranges: Vec<(Style, &str)> = spans.iter().map(|span| {
        let (fore, back) = (span.foreground, span.background);
        let style = Style {
            foreground: Color { r: fore.r, g: fore.g, b: fore.b, a: fore.a },
            background: Color { r: back.r, g: back.g, b: back.b, a: back.a },
            font_style: FontStyle::from_bits_truncate(span.font_style),
        };
        (style, span.text.as_str())
    }).collect();
    as_24_bit_terminal_escaped(&ranges[..], bg)
}

/// The syntaxes that syntect ships.
pub fn default_syntaxes() -> (syntax_set: SyntaxSet)
    ensures
        is_loaded(&syntax_set),
{
    load_defaults_newlines()
}

/// A highlighter for the syntax `name` of `syntax_set` and for `theme`; for
/// plain text where the set holds no syntax of that name; none where it
/// holds neither.
pub fn highlighter_for<'a>(syntax_set: &SyntaxSet, name: &str, theme: &'a Theme) -> (made: Option<
    HighlightLines<'a>,
>)
    requires
        is_loaded(syntax_set),
    ensures
        made matches Some(highlighter) ==> taken_from(&highlighter, syntax_set),
{
    match highlighter_by_name(syntax_set, name, theme) {
        Some(highlighter) => Some(highlighter),
        None => highlighter_by_name(syntax_set, "Plain Text", theme),
    }
}

/// The texts of `spans`, one after the other.
pub fn joined_text(spans: &Vec<Span>) -> (text: String)
    ensures
        text@ == span_texts(spans@),
{
    let mut text = String::new();
    let mut i: usize = 0;
    while i < spans.len()
        invariant
            i <= spans.len(),
            text@ == span_texts(spans@.take(i as int)),
        decreases spans.len() - i,
    {
        proof {
            let each = |span: Span| span.text@;
            assert(spans@.take(i + 1).map_values(each) =~= spans@.take(i as int).map_values(
                each,
            ).push(spans@[i as int].text@));
            spans@.take(i as int).map_values(each).lemma_flatten_push(spans@[i as int].text@);
        }
        text.append(spans[i].text.as_str());
        i += 1;
    }
    assert(spans@.take(spans.len() as int) =~= spans@);
    text
}

/// The text that is shown for what the highlighter answered to `text`: its
/// spans with their colour codes, background included, where they hold all
/// of `text`; an error where they hold less, and where the highlighter
/// failed.
pub fn terminal_text(text: &String, outcome: Result<Vec<Span>, syntect::Error>) -> (shown: Result<
    String,
    RenderError,
>)
    ensures
        match outcome {
            Ok(spans) => match shown_answer(text@, Some(spans@)) {
                Some(coloured) => shown matches Ok(out) && out@ == coloured,
                None => shown matches Err(RenderError::Incomplete),
            },
            Err(failure) => shown matches Err(RenderError::Highlight(cause)) && cause == failure,
        },
{
    match outcome {
        Ok(spans) => {
            let joined = joined_text(&spans);
            if joined == *text {
                Ok(terminal_escaped(&spans, true))
            } else {
                Err(RenderError::Incomplete)
            }
        },
        Err(failure) => Err(RenderError::Highlight(failure)),
    }
}

} // verus!
