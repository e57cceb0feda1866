use rscat::file_parser::FileParser;
use rscat::highlight::{default_syntaxes, highlighter_for};
use rscat::pass::RenderPass;
use rscat::test_writer::TestWriter;
use syntect::highlighting::ThemeSet;

/// The units of a pass over `text` as plain text, in the order they come.
fn units_of(parser: FileParser, text: &str) -> Vec<String> {
    let ps = default_syntaxes();
    let ts = ThemeSet::load_defaults();
    let mut highlighter =
        highlighter_for(&ps, "Plain Text", &ts.themes["base16-ocean.dark"]).unwrap();
    let mut pass = RenderPass::new(parser, text);
    let mut units = Vec::new();
    while let Some(unit) = pass.next_unit(&mut highlighter, &ps).unwrap() {
        units.push(unit);
    }
    assert_eq!(pass.next_unit(&mut highlighter, &ps).unwrap(), None);
    units
}

#[test]
fn no_text_no_unit() {
    assert_eq!(units_of(FileParser::new(true, true, true, true), ""), Vec::<String>::new());
}

#[test]
fn every_fragment_is_a_unit_without_squeezing() {
    let parser = FileParser::new(true, false, false, false);
    assert_eq!(units_of(parser, "a\n\n \nb\n\n"), vec!["1 a\n", "\n", " \n", "2 b\n", "\n"]);
}

#[test]
fn a_squeezed_run_is_one_unit_before_its_line() {
    let parser = FileParser::new(true, true, false, false);
    assert_eq!(units_of(parser, "a\n\n \nb\n\n\n"), vec!["1 a\n", "\n", "2 b\n", "\n"]);
    assert_eq!(units_of(parser, "\n\nb"), vec!["\n", "1 b"]);
    assert_eq!(units_of(parser, "\n \n"), vec!["\n"]);
}

#[test]
fn units_are_highlighted_one_by_one() {
    let codes = "\u{1b}[48;2;43;48;59m\u{1b}[38;2;192;197;206m";
    let parser = FileParser::new(true, true, true, true);
    assert_eq!(
        units_of(parser, "a\x7f\n\n\nb"),
        vec![format!("1 {codes}a^?\n"), format!("{codes}\n"), format!("2 {codes}b")]
    );
}

#[test]
fn the_units_of_a_pass_are_what_it_prints() {
    let ps = default_syntaxes();
    let ts = ThemeSet::load_defaults();
    let theme = &ts.themes["base16-ocean.dark"];
    let text = "fn main() {\n\n\n    // done\x0c\n}\n\n";
    for flags in 0..16u8 {
        let parser =
            FileParser::new(flags & 1 != 0, flags & 2 != 0, flags & 4 != 0, flags & 8 != 0);
        let mut highlighter = highlighter_for(&ps, "Rust", theme).unwrap();
        let mut writer = TestWriter::new();
        parser.print_contents(&mut writer, &mut highlighter, &ps, text.to_string()).unwrap();
        let mut highlighter = highlighter_for(&ps, "Rust", theme).unwrap();
        let mut pass = RenderPass::new(parser, text);
        let mut units = String::new();
        while let Some(unit) = pass.next_unit(&mut highlighter, &ps).unwrap() {
            units.push_str(&unit);
        }
        assert_eq!(writer.into_string(), units);
    }
}
