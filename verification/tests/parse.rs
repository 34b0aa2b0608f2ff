use terminal_css::{BorderStyle, Color, Decoration, ParseError, Termio};

#[test]
fn parses_a_simple_block() {
    let mut t = Termio::new();
    t.parse("@element \"hero\" {\n  color: red;\n  background: blue;\n}\n")
        .unwrap();
    let s = t.get_style("hero").unwrap();
    assert_eq!(s.fg, Some(Color::Red));
    assert_eq!(s.bg, Some(Color::Blue));
    assert!(t.get_style("other").is_none());
}

#[test]
fn skips_blank_lines_and_comments() {
    let mut t = Termio::new();
    t.parse("\n// a comment\n\n@element \"a\" {\n// inside\n\n  color: cyan;\n}\n")
        .unwrap();
    assert_eq!(t.get_style("a").unwrap().fg, Some(Color::Cyan));
}

#[test]
fn one_value_padding_sets_every_side_and_uniform() {
    let mut t = Termio::new();
    t.parse("@element \"a\" {\n  padding: 3;\n}\n").unwrap();
    let s = t.get_style("a").unwrap();
    assert_eq!(s.padding, Some(3));
    assert_eq!(s.padding_top, Some(3));
    assert_eq!(s.padding_bottom, Some(3));
    assert_eq!(s.padding_left, Some(3));
    assert_eq!(s.padding_right, Some(3));
}

#[test]
fn two_value_padding_is_vertical_then_horizontal() {
    let mut t = Termio::new();
    t.parse("@element \"a\" {\n  padding: 2 5;\n}\n").unwrap();
    let s = t.get_style("a").unwrap();
    assert_eq!(s.padding, None);
    assert_eq!(s.padding_top, Some(2));
    assert_eq!(s.padding_bottom, Some(2));
    assert_eq!(s.padding_left, Some(5));
    assert_eq!(s.padding_right, Some(5));
}

#[test]
fn four_value_padding_is_top_right_bottom_left() {
    let mut t = Termio::new();
    t.parse("@element \"a\" {\n  padding: 1 2 3 4;\n}\n").unwrap();
    let s = t.get_style("a").unwrap();
    assert_eq!(s.padding_top, Some(1));
    assert_eq!(s.padding_right, Some(2));
    assert_eq!(s.padding_bottom, Some(3));
    assert_eq!(s.padding_left, Some(4));
}

#[test]
fn margin_shorthand_follows_the_same_conventions() {
    let mut t = Termio::new();
    t.parse("@element \"a\" {\n  margin: 4 7;\n}\n@element \"b\" {\n  margin: 1;\n}\n")
        .unwrap();
    let a = t.get_style("a").unwrap();
    assert_eq!(a.margin, None);
    assert_eq!(a.margin_top, Some(4));
    assert_eq!(a.margin_bottom, Some(4));
    assert_eq!(a.margin_left, Some(7));
    assert_eq!(a.margin_right, Some(7));
    let b = t.get_style("b").unwrap();
    assert_eq!(b.margin, Some(1));
    assert_eq!(b.margin_top, Some(1));
}

#[test]
fn per_side_properties_parse() {
    let mut t = Termio::new();
    t.parse(
        "@element \"a\" {\n  padding-top: 1;\n  padding-bottom: 2;\n  padding-left: 3;\n  padding-right: 4;\n  margin-top: 5;\n  margin-bottom: 6;\n  margin-left: 7;\n  margin-right: 8;\n}\n",
    )
    .unwrap();
    let s = t.get_style("a").unwrap();
    assert_eq!(s.padding_top, Some(1));
    assert_eq!(s.padding_bottom, Some(2));
    assert_eq!(s.padding_left, Some(3));
    assert_eq!(s.padding_right, Some(4));
    assert_eq!(s.margin_top, Some(5));
    assert_eq!(s.margin_bottom, Some(6));
    assert_eq!(s.margin_left, Some(7));
    assert_eq!(s.margin_right, Some(8));
}

#[test]
fn three_value_padding_fails_without_partial_insert() {
    let mut t = Termio::new();
    let r = t.parse(
        "@element \"good\" {\n  color: red;\n}\n@element \"bad\" {\n  padding: 1 2 3;\n}\n",
    );
    assert!(matches!(r, Err(ParseError::InvalidSyntax(_))));
    // the block completed before the error stays committed
    assert!(t.get_style("good").is_some());
    // the failing block is not inserted, under any name
    assert!(t.get_style("bad").is_none());
}

#[test]
fn decoration_lists_parse_in_order() {
    let mut t = Termio::new();
    t.parse("@element \"a\" {\n  decoration: bold italic underline;\n}\n")
        .unwrap();
    let s = t.get_style("a").unwrap();
    assert_eq!(
        s.decoration,
        Some(vec![Decoration::Bold, Decoration::Italic, Decoration::Underline])
    );
}

#[test]
fn unknown_decoration_in_list_is_invalid_syntax() {
    let mut t = Termio::new();
    let r = t.parse("@element \"a\" {\n  decoration: bold sparkle;\n}\n");
    assert!(matches!(r, Err(ParseError::InvalidSyntax(_))));
}

#[test]
fn border_shorthand_sets_style_and_color() {
    let mut t = Termio::new();
    t.parse("@element \"a\" {\n  border: solid red;\n}\n").unwrap();
    let s = t.get_style("a").unwrap();
    assert_eq!(s.border_style, Some(BorderStyle::Solid));
    assert_eq!(s.border_color, Some(Color::Red));
}

#[test]
fn border_shorthand_without_space_is_invalid_syntax() {
    let mut t = Termio::new();
    let r = t.parse("@element \"a\" {\n  border: solid;\n}\n");
    assert!(matches!(r, Err(ParseError::InvalidSyntax(_))));
}

#[test]
fn unknown_property_is_invalid_syntax() {
    let mut t = Termio::new();
    let r = t.parse("@element \"a\" {\n  colour: red;\n}\n");
    assert!(matches!(r, Err(ParseError::InvalidSyntax(_))));
}

#[test]
fn declaration_without_colon_is_invalid_syntax() {
    let mut t = Termio::new();
    let r = t.parse("@element \"a\" {\n  color red;\n}\n");
    assert!(matches!(r, Err(ParseError::InvalidSyntax(_))));
}

#[test]
fn block_header_without_quoted_name_is_invalid_syntax() {
    let mut t = Termio::new();
    let r = t.parse("@element {\n  color: red;\n}\n");
    assert!(matches!(r, Err(ParseError::InvalidSyntax(_))));
}

#[test]
fn missing_final_brace_still_commits_the_block() {
    let mut t = Termio::new();
    t.parse("@element \"open\" {\n  color: green;\n").unwrap();
    assert_eq!(t.get_style("open").unwrap().fg, Some(Color::Green));
}

#[test]
fn duplicate_name_in_one_parse_is_a_duplicate_error() {
    let mut t = Termio::new();
    let r = t.parse("@element \"a\" {\n  color: red;\n}\n@element \"a\" {\n  color: blue;\n}\n");
    match r {
        Err(ParseError::DuplicateElement(name)) => assert_eq!(name, "a"),
        other => panic!("expected a duplicate-element error, got {:?}", other),
    }
    // the first binding is kept, never overwritten
    assert_eq!(t.get_style("a").unwrap().fg, Some(Color::Red));
}

#[test]
fn duplicate_name_across_chained_parses_is_a_duplicate_error() {
    let mut t = Termio::new();
    t.parse("@element \"a\" {\n  color: red;\n}\n").unwrap();
    let r = t.parse("@element \"a\" {\n  color: red;\n}\n");
    assert!(matches!(r, Err(ParseError::DuplicateElement(_))));
    // identical body makes no difference; and a different body fails too
    let r2 = t.parse("@element \"a\" {\n  padding: 2;\n}\n");
    assert!(matches!(r2, Err(ParseError::DuplicateElement(_))));
    assert_eq!(t.get_style("a").unwrap().fg, Some(Color::Red));
}

#[test]
fn parsing_is_additive_across_calls() {
    let mut t = Termio::new();
    t.parse("@element \"a\" {\n  color: red;\n}\n").unwrap();
    t.parse("@element \"b\" {\n  color: blue;\n}\n").unwrap();
    assert!(t.get_style("a").is_some());
    assert!(t.get_style("b").is_some());
}

#[test]
fn add_style_overwrites_without_error() {
    let mut t = Termio::new();
    let mut s1 = terminal_css::Style::default();
    s1.fg = Some(Color::Red);
    t.add_style("a", s1);
    let mut s2 = terminal_css::Style::default();
    s2.fg = Some(Color::Blue);
    t.add_style("a", s2);
    assert_eq!(t.get_style("a").unwrap().fg, Some(Color::Blue));
}

#[test]
fn registries_are_independent() {
    let mut t1 = Termio::new();
    let t2 = Termio::new();
    t1.parse("@element \"a\" {\n  color: red;\n}\n").unwrap();
    assert!(t1.get_style("a").is_some());
    assert!(t2.get_style("a").is_none());
}

#[test]
fn parse_error_messages_name_their_kind() {
    let mut t = Termio::new();
    let e = t.parse("@element \"a\" {\n  color: zork;\n}\n").unwrap_err();
    assert!(e.message().starts_with("Invalid syntax: "));
    t.parse("@element \"a\" {\n}\n").unwrap();
    let e2 = t.parse("@element \"a\" {\n}\n").unwrap_err();
    assert_eq!(e2.message(), "Duplicate element name: a");
}

#[test]
fn trailing_semicolons_and_spacing_are_tolerated() {
    let mut t = Termio::new();
    t.parse("@element \"a\" {\n   color:   red;;  \n}\n").unwrap();
    // the stripped value keeps an inner trailing space before the semicolons
    // only when one stood there; plain `red` parses
    assert_eq!(t.get_style("a").unwrap().fg, Some(Color::Red));
}

#[test]
fn empty_source_parses_to_nothing() {
    let mut t = Termio::new();
    t.parse("").unwrap();
    assert!(t.get_style("").is_none());
}

#[test]
fn padding_accepts_the_full_byte_range() {
    let mut t = Termio::new();
    t.parse("@element \"a\" {\n  padding: 255;\n}\n").unwrap();
    assert_eq!(t.get_style("a").unwrap().padding, Some(255));
    let r = t.parse("@element \"b\" {\n  padding: 256;\n}\n");
    assert!(matches!(r, Err(ParseError::InvalidSyntax(_))));
}
