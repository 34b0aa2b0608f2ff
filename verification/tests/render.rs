use terminal_css::{BorderStyle, Color, Decoration, Style, StyledText, Termio};

const RESET: &str = "\x1b[0m";

#[test]
fn parsed_block_renders_with_color_and_padding() {
    let mut t = Termio::new();
    t.parse("@element \"a\" {\n  color: red;\n  padding: 1;\n}\n")
        .unwrap();
    let out = "hi".style("a", &t).render();

    assert!(out.contains("\x1b[31m"));
    // three rows: top padding, content, bottom padding; no border rows
    let rows: Vec<&str> = out.split('\n').collect();
    assert_eq!(rows.len(), 3);
    assert_eq!(rows[0], "");
    assert_eq!(rows[2], "");
    // the content row is exactly left pad, styled text, resets, right pad
    assert_eq!(rows[1], format!(" \x1b[31mhi{} {}", RESET, RESET));
    // display width of the content row: 2 (text) + 2 (padding)
    let visible: String = rows[1]
        .replace("\x1b[31m", "")
        .replace(RESET, "");
    assert_eq!(visible, " hi ");
}

#[test]
fn unknown_style_name_falls_back_to_unstyled_output() {
    let t = Termio::new();
    let out = "hi".style("missing", &t).render();
    // no color, decoration, border, padding or margin: the text itself,
    // followed only by the two attribute resets every content row carries
    assert_eq!(out, format!("hi{}{}", RESET, RESET));
}

#[test]
fn rendering_is_idempotent_on_the_output() {
    let mut t = Termio::new();
    t.parse("@element \"a\" {\n  color: red;\n  border: double blue;\n  padding: 1 2;\n  margin: 1;\n}\n")
        .unwrap();
    let styled = "first\nsecond".style("a", &t);
    let once = styled.render();
    let twice = styled.render();
    assert_eq!(once, twice);
}

#[test]
fn built_and_parsed_styles_render_identically() {
    let mut t = Termio::new();
    t.parse("@element \"a\" {\n  color: red;\n  background: blue;\n  decoration: bold;\n  padding: 1;\n  border-style: solid;\n  border-color: yellow;\n}\n")
        .unwrap();

    let built = Style::new()
        .fg(Color::Red)
        .bg(Color::Blue)
        .decoration(vec![Decoration::Bold])
        .padding(1)
        .padding_top(1)
        .padding_bottom(1)
        .padding_left(1)
        .padding_right(1)
        .border_style(BorderStyle::Solid)
        .border_color(Color::Yellow);

    let mut t2 = Termio::new();
    t2.add_style("a", built);

    let text = "hello\nworld";
    let parsed_out = text.style("a", &t).render();
    let built_out = text.style("a", &t2).render();
    assert_eq!(parsed_out, built_out);
}

#[test]
fn wide_glyph_aligns_right_border_with_ascii_of_equal_display_width() {
    // a fullwidth glyph occupies two columns, like two ASCII characters
    let out = "\u{3042}\nab".border(BorderStyle::Solid).render();
    let expected = format!(
        "\u{250c}\u{2500}\u{2500}\u{2510}{r}\n\u{2502}{r}\u{3042}{r}{r}\u{2502}{r}\n\u{2502}{r}ab{r}{r}\u{2502}{r}\n\u{2514}\u{2500}\u{2500}\u{2518}{r}",
        r = RESET
    );
    assert_eq!(out, expected);
}

#[test]
fn border_shorthand_equals_its_two_longhand_declarations() {
    let mut shorthand = Termio::new();
    shorthand
        .parse("@element \"a\" {\n  border: solid red;\n}\n")
        .unwrap();
    let mut longhand = Termio::new();
    longhand
        .parse("@element \"a\" {\n  border-style: solid;\n  border-color: red;\n}\n")
        .unwrap();

    let s1 = shorthand.get_style("a").unwrap();
    let s2 = longhand.get_style("a").unwrap();
    assert_eq!(s1.border_style, s2.border_style);
    assert_eq!(s1.border_color, s2.border_color);

    let text = "boxed";
    assert_eq!(
        text.style("a", &shorthand).render(),
        text.style("a", &longhand).render()
    );
}

#[test]
fn bordered_box_draws_all_four_sides() {
    let out = "x".border(BorderStyle::Double).render();
    let expected = format!(
        "\u{2554}\u{2550}\u{2557}{r}\n\u{2551}{r}x{r}{r}\u{2551}{r}\n\u{255a}\u{2550}\u{255d}{r}",
        r = RESET
    );
    assert_eq!(out, expected);
}

#[test]
fn border_color_wraps_border_glyphs() {
    let out = "x"
        .border(BorderStyle::Solid)
        .border_color(Color::Yellow)
        .render();
    let y = "\x1b[33m";
    let expected = format!(
        "{y}\u{250c}\u{2500}\u{2510}{r}\n{y}\u{2502}{r}x{r}{r}{y}\u{2502}{r}\n{y}\u{2514}\u{2500}\u{2518}{r}",
        y = y,
        r = RESET
    );
    assert_eq!(out, expected);
}

#[test]
fn margins_add_blank_lines_and_left_indent() {
    let out = "m".margin(1).render();
    // one blank line above, one below; left margin indents the content row
    assert_eq!(out, format!("\n m{}{}\n", RESET, RESET));
}

#[test]
fn background_fills_padding() {
    let out = "p".bg(Color::Blue).padding_trbl(0, 1, 0, 1).render();
    let b = "\x1b[44m";
    assert_eq!(
        out,
        format!("{b} {b}p{r}{b} {r}", b = b, r = RESET)
    );
}

#[test]
fn decorations_emit_in_sequence_order() {
    let out = "d"
        .decoration(Decoration::Bold)
        .render();
    assert_eq!(out, format!("\x1b[1md{}{}", RESET, RESET));

    let mut t = Termio::new();
    t.parse("@element \"a\" {\n  decoration: bold italic;\n}\n")
        .unwrap();
    let out2 = "d".style("a", &t).render();
    assert_eq!(out2, format!("\x1b[1m\x1b[3md{}{}", RESET, RESET));
}

#[test]
fn unbordered_multi_line_rows_run_together() {
    // without a border no newline follows a text row; the rows of an
    // unbordered block run together, as the box model literally emits them
    let out = "ab\ncd".style("none", &Termio::new()).render();
    assert_eq!(out, format!("ab{r}{r}cd{r}{r}", r = RESET));
}

#[test]
fn narrow_lines_are_filled_to_the_widest() {
    let out = "abc\nx".style("none", &Termio::new()).render();
    // the short row is filled with two spaces before its reset
    assert_eq!(out, format!("abc{r}{r}x  {r}{r}", r = RESET));
}

#[test]
fn eight_bit_palette_code_renders() {
    let out = "c".color(Color::Code(123)).render();
    assert_eq!(out, format!("\x1b[38;5;123mc{r}{r}", r = RESET));
}

#[test]
fn empty_text_renders_no_rows() {
    let out = "".style("none", &Termio::new()).render();
    assert_eq!(out, "");
}

#[test]
fn empty_text_in_a_border_renders_a_collapsed_box() {
    let out = "".border(BorderStyle::Solid).render();
    assert_eq!(
        out,
        format!("\u{250c}\u{2510}{r}\n\u{2514}\u{2518}{r}", r = RESET)
    );
}

#[test]
fn largest_byte_values_render_three_digit_codes() {
    let out = "x".color(Color::Code(255)).bg(Color::Rgb(255, 255, 255)).render();
    let b = "\x1b[48;2;255;255;255m";
    assert_eq!(
        out,
        format!("{b}\x1b[38;5;255m{b}x{r}{b}{r}", b = b, r = RESET)
    );
}
