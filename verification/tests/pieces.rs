use rscat::blank::is_blank_fragment;
use rscat::decimal::push_decimal;
use rscat::file_parser::FileParser;
use rscat::highlight::{
    default_syntaxes, highlighter_for, joined_text, terminal_text, RenderError, Rgba, Span,
};
use rscat::test_writer::TestWriter;
use syntect::highlighting::ThemeSet;

fn decimal(n: usize) -> String {
    let mut out = String::new();
    push_decimal(&mut out, n);
    out
}

#[test]
fn digits() {
    let all: Vec<String> = (0..10).map(decimal).collect();
    assert_eq!(all.concat(), "0123456789");
}

#[test]
fn decimal_numerals() {
    assert_eq!(decimal(0), "0");
    assert_eq!(decimal(7), "7");
    assert_eq!(decimal(10), "10");
    assert_eq!(decimal(109), "109");
    assert_eq!(decimal(1234567890), "1234567890");
    assert_eq!(decimal(usize::MAX), usize::MAX.to_string());
}

#[test]
fn decimal_numerals_are_appended() {
    let mut out = String::from("line ");
    push_decimal(&mut out, 42);
    assert_eq!(out, "line 42");
}

#[test]
fn blank_fragments() {
    assert!(is_blank_fragment(""));
    assert!(is_blank_fragment("\n"));
    assert!(is_blank_fragment(" \t\r\n"));
    assert!(is_blank_fragment("\x0b\x0c\n"));
    assert!(is_blank_fragment("\u{a0}\u{2003}\u{3000}\n"));
    assert!(!is_blank_fragment("a\n"));
    assert!(!is_blank_fragment("  .  \n"));
    assert!(!is_blank_fragment("\x1b\n"));
    assert!(!is_blank_fragment("\u{200b}\n"));
}

#[test]
fn escaping_leaves_other_characters_alone() {
    let parser = FileParser::new(false, false, false, true);
    let text = "plain text, with\ttabs \r\n and caf\u{e9} ^K \x00\x01\x08\x0d\x1a\x1c\x7e\u{80}";
    assert_eq!(parser.replace_non_printing_characters(text), text);
    assert_eq!(parser.replace_non_printing_characters(""), "");
}

#[test]
fn escaping_twice_is_escaping_once() {
    let parser = FileParser::new(false, false, false, true);
    let once = parser.replace_non_printing_characters("a\x0bb\x0c\x0e^\x0f\x1b\x7f\n");
    assert_eq!(once, "a^Kb^L^N^^O^E^?\n");
    assert_eq!(parser.replace_non_printing_characters(&once), once);
}

#[test]
fn escaping_keeps_the_line_feed() {
    let parser = FileParser::new(false, false, false, true);
    assert_eq!(parser.replace_non_printing_characters("\x7f\n"), "^?\n");
}

#[test]
fn blank_runs() {
    let squeezing = FileParser::new(false, true, false, false);
    assert_eq!(squeezing.blank_run(1), "\n");
    assert_eq!(squeezing.blank_run(5), "\n");
    let keeping = FileParser::new(false, false, false, false);
    assert_eq!(keeping.blank_run(1), "\n");
    assert_eq!(keeping.blank_run(3), "\n\n\n");
    assert_eq!(keeping.blank_run(0), "");
}

#[test]
fn lines_with_and_without_numbers() {
    let mut writer = TestWriter::new();
    FileParser::new(true, false, false, false).maybe_print_line_with_line_numbers(
        &mut writer,
        "first\n",
        &1,
    );
    FileParser::new(false, false, false, false).maybe_print_line_with_line_numbers(
        &mut writer,
        "second\n",
        &2,
    );
    FileParser::new(true, false, false, false).maybe_print_line_with_line_numbers(
        &mut writer,
        "hundredth",
        &100,
    );
    assert_eq!(writer.into_string(), "1 first\nsecond\n100 hundredth");
}

fn span(foreground: Rgba, background: Rgba, text: &str) -> Span {
    Span { foreground, background, font_style: 0, text: text.to_string() }
}

#[test]
fn spans_with_their_colour_codes() {
    let white = Rgba { r: 255, g: 255, b: 255, a: 255 };
    let navy = Rgba { r: 0, g: 0, b: 128, a: 255 };
    let red = Rgba { r: 200, g: 10, b: 9, a: 255 };
    let spans = vec![span(white, navy, "let "), span(red, navy, "x\n")];
    let shown = terminal_text(&"let x\n".to_string(), Ok(spans)).unwrap();
    assert_eq!(
        shown,
        "\u{1b}[48;2;0;0;128m\u{1b}[38;2;255;255;255mlet \u{1b}[48;2;0;0;128m\u{1b}[38;2;200;10;9mx\n"
    );
}

#[test]
fn a_foreground_that_is_not_opaque_is_blended() {
    let half_red = Rgba { r: 255, g: 0, b: 0, a: 128 };
    let blue = Rgba { r: 0, g: 0, b: 255, a: 7 };
    let shown = terminal_text(&"x".to_string(), Ok(vec![span(half_red, blue, "x")])).unwrap();
    assert_eq!(shown, "\u{1b}[48;2;0;0;255m\u{1b}[38;2;128;0;127mx");
    let clear = Rgba { r: 9, g: 99, b: 199, a: 0 };
    let grey = Rgba { r: 40, g: 50, b: 60, a: 255 };
    let shown = terminal_text(&"y".to_string(), Ok(vec![span(clear, grey, "y")])).unwrap();
    assert_eq!(shown, "\u{1b}[48;2;40;50;60m\u{1b}[38;2;40;50;60my");
}

#[test]
fn no_spans_for_no_text() {
    assert_eq!(terminal_text(&String::new(), Ok(Vec::new())).unwrap(), "");
}

#[test]
fn span_texts_are_joined_in_order() {
    let grey = Rgba { r: 40, g: 50, b: 60, a: 255 };
    assert_eq!(joined_text(&Vec::new()), "");
    assert_eq!(
        joined_text(&vec![
            span(grey, grey, "caf\u{e9} "),
            span(grey, grey, ""),
            span(grey, grey, "x\n")
        ]),
        "caf\u{e9} x\n"
    );
}

#[test]
fn an_answer_that_stops_early_is_an_error() {
    let grey = Rgba { r: 40, g: 50, b: 60, a: 255 };
    let short = terminal_text(&"let x\n".to_string(), Ok(vec![span(grey, grey, "let ")]));
    assert!(matches!(short, Err(RenderError::Incomplete)));
    let none = terminal_text(&"let x\n".to_string(), Ok(Vec::new()));
    assert!(matches!(none, Err(RenderError::Incomplete)));
    let other = terminal_text(&"let x\n".to_string(), Ok(vec![span(grey, grey, "let y\n")]));
    assert!(matches!(other, Err(RenderError::Incomplete)));
}

#[test]
fn a_failure_of_the_highlighter_is_handed_on() {
    let outcome = terminal_text(&"x".to_string(), Err(syntect::Error::Fmt(std::fmt::Error)));
    assert!(matches!(outcome, Err(RenderError::Highlight(syntect::Error::Fmt(_)))));
}

#[test]
fn highlighting_off_hands_the_text_back() {
    let ps = default_syntaxes();
    let ts = ThemeSet::load_defaults();
    let mut highlighter =
        highlighter_for(&ps, "Plain Text", &ts.themes["base16-ocean.dark"]).unwrap();
    let parser = FileParser::new(true, true, false, true);
    let shown = parser.highlight(&mut highlighter, &ps, "as it is\n".to_string()).unwrap();
    assert_eq!(shown, "as it is\n");
}

#[test]
fn highlighting_colours_by_syntax() {
    let ps = default_syntaxes();
    let ts = ThemeSet::load_defaults();
    let mut highlighter = highlighter_for(&ps, "Rust", &ts.themes["base16-ocean.dark"]).unwrap();
    let parser = FileParser::new(false, false, true, false);
    let shown = parser.highlight(&mut highlighter, &ps, "let x = 1;\n".to_string()).unwrap();
    assert_eq!(
        shown,
        "\u{1b}[48;2;43;48;59m\u{1b}[38;2;180;142;173mlet\
         \u{1b}[48;2;43;48;59m\u{1b}[38;2;192;197;206m x \
         \u{1b}[48;2;43;48;59m\u{1b}[38;2;192;197;206m=\
         \u{1b}[48;2;43;48;59m\u{1b}[38;2;192;197;206m \
         \u{1b}[48;2;43;48;59m\u{1b}[38;2;208;135;112m1\
         \u{1b}[48;2;43;48;59m\u{1b}[38;2;192;197;206m;\
         \u{1b}[48;2;43;48;59m\u{1b}[38;2;192;197;206m\n"
    );
}

#[test]
fn a_syntax_that_the_set_lacks_is_plain_text() {
    let ps = default_syntaxes();
    let ts = ThemeSet::load_defaults();
    let theme = &ts.themes["base16-ocean.dark"];
    let parser = FileParser::new(false, false, true, false);
    let mut unknown = highlighter_for(&ps, "No Such Syntax", theme).unwrap();
    let mut plain = highlighter_for(&ps, "Plain Text", theme).unwrap();
    let mut rust = highlighter_for(&ps, "Rust", theme).unwrap();
    let text = "let x = 1;\n";
    let as_unknown = parser.highlight(&mut unknown, &ps, text.to_string()).unwrap();
    let as_plain = parser.highlight(&mut plain, &ps, text.to_string()).unwrap();
    let as_rust = parser.highlight(&mut rust, &ps, text.to_string()).unwrap();
    assert_eq!(as_unknown, as_plain);
    assert_eq!(as_plain, "\u{1b}[48;2;43;48;59m\u{1b}[38;2;192;197;206mlet x = 1;\n");
    assert!(as_rust != as_plain);
}

#[test]
fn the_shipped_syntaxes_hold_plain_text_and_more() {
    let ps = default_syntaxes();
    assert!(ps.find_syntax_by_name("Plain Text").is_some());
    assert!(ps.find_syntax_by_name("Rust").is_some());
    assert!(ps.syntaxes().len() > 10);
}

#[test]
fn numbered_lines() {
    let numbering = FileParser::new(true, false, false, false);
    assert_eq!(numbering.number_line("x\n", 1), "1 x\n");
    assert_eq!(numbering.number_line("", 12), "12 ");
    let plain = FileParser::new(false, true, true, true);
    assert_eq!(plain.number_line("x\n", 1), "x\n");
}
