use rscat::file_parser::FileParser;
use rscat::test_writer::TestWriter;
use syntect::easy::HighlightLines;
use syntect::highlighting::ThemeSet;
use syntect::parsing::SyntaxSet;

#[test]
fn test_replace_non_printing() {
    let file_parser = FileParser::new(false, false, false, true);
    let line = "hello\x0b\x0c\x0e\x0f\x1b\x7f";
    let expected = "hello^K^L^N^O^E^?";
    let actual = file_parser.replace_non_printing_characters(line);
    assert_eq!(expected, actual);
}

#[test]
fn test_replace_non_printing_no_show_non_printing() {
    let file_parser = FileParser::new(false, false, false, false);
    let line = "hello\x0b\x0c\x0e\x0f\x1b\x7f";
    let expected = "hello\x0b\x0c\x0e\x0f\x1b\x7f";
    let actual = file_parser.replace_non_printing_characters(line);
    assert_eq!(expected, actual);
}

#[test]
fn test_replace_non_printing_no_show_non_printing_with_line_numbers() {
    let file_parser = FileParser::new(true, false, false, false);
    let line = "hello\x0b\x0c\x0e\x0f\x1b\x7f";
    let expected = "1 hello\x0b\x0c\x0e\x0f\x1b\x7f";

    let ps = SyntaxSet::load_defaults_newlines();
    let ts = ThemeSet::load_defaults();
    let syntax = ps.find_syntax_for_file("test.txt").unwrap().unwrap();
    let mut highlighter = HighlightLines::new(syntax, &ts.themes["base16-ocean.dark"]);

    let mut writer = TestWriter::new();

    file_parser
        .print_contents(&mut writer, &mut highlighter, &ps, line.to_string())
        .unwrap();
    writer.flush();
    let contents = writer.into_string();
    assert_eq!(expected, contents);
}

#[test]
fn test_squeeze_blank_line_option() {
    let file_parser = FileParser::new(false, true, false, false);
    let line = "line1\n\nline2\n\n\nline3";
    let expected = "line1\n\nline2\n\nline3";

    let ps = SyntaxSet::load_defaults_newlines();
    let ts = ThemeSet::load_defaults();
    let syntax = ps.find_syntax_for_file("test.txt").unwrap().unwrap();
    let mut highlighter = HighlightLines::new(syntax, &ts.themes["base16-ocean.dark"]);

    let mut writer = TestWriter::new();

    file_parser
        .print_contents(&mut writer, &mut highlighter, &ps, line.to_string())
        .unwrap();

    let contents = writer.into_string();
    assert_eq!(expected, contents);
}

#[test]
fn test_print_contents() {
    let file_parser = FileParser::new(false, false, false, false);
    let line = "hello";
    let expected = "hello";

    let ps = SyntaxSet::load_defaults_newlines();
    let ts = ThemeSet::load_defaults();
    let syntax = ps.find_syntax_for_file("test.txt").unwrap().unwrap();
    let mut highlighter = HighlightLines::new(syntax, &ts.themes["base16-ocean.dark"]);

    let mut writer = TestWriter::new();

    file_parser
        .print_contents(&mut writer, &mut highlighter, &ps, line.to_string())
        .unwrap();

    let contents = writer.into_string();
    assert_eq!(expected, contents);
}

#[test]
fn test_syntax_highlighting() {
    let file_parser = FileParser::new(true, false, true, false);
    let line = "hello";
    let expected = "1 \u{1b}[48;2;43;48;59m\u{1b}[38;2;192;197;206mhello";

    let ps = SyntaxSet::load_defaults_newlines();
    let ts = ThemeSet::load_defaults();
    let syntax = ps.find_syntax_for_file("test.txt").unwrap().unwrap();
    let mut highlighter = HighlightLines::new(syntax, &ts.themes["base16-ocean.dark"]);

    let mut writer = TestWriter::new();

    file_parser
        .print_contents(&mut writer, &mut highlighter, &ps, line.to_string())
        .unwrap();

    let contents = writer.into_string();
    assert_eq!(expected, contents);
}

#[test]
fn test_syntax_highlight_with_squeezing() {
    let file_parser = FileParser::new(true, true, true, false);
    let line = "hello\n\n\nworld";
    let expected = "1 \u{1b}[48;2;43;48;59m\u{1b}[38;2;192;197;206mhello\n\u{1b}[48;2;43;48;59m\u{1b}[38;2;192;197;206m\n2 \u{1b}[48;2;43;48;59m\u{1b}[38;2;192;197;206mworld";

    let ps = SyntaxSet::load_defaults_newlines();
    let ts = ThemeSet::load_defaults();
    let syntax = ps.find_syntax_for_file("test.txt").unwrap().unwrap();
    let mut highlighter = HighlightLines::new(syntax, &ts.themes["base16-ocean.dark"]);

    let mut writer = TestWriter::new();

    file_parser
        .print_contents(&mut writer, &mut highlighter, &ps, line.to_string())
        .unwrap();

    let contents = writer.into_string();
    assert_eq!(expected, contents);
}
