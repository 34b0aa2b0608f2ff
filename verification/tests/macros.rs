use terminal_css::{BorderStyle, Color, Decoration, Style, StyledText, Termio};

#[test]
fn test_style_macro() {
    let mut style = Style::default();
    style.fg = Some(Color::Green);
    style.bg = Some(Color::Black);
    style.decoration = Some(vec![Decoration::Bold]);
    style.padding = Some(1);
    style.margin = Some(1);
    style.border_color = Some(Color::Yellow);
    style.border_style = Some(BorderStyle::Rounded);

    assert_eq!(style.fg, Some(Color::Green));
    assert_eq!(style.bg, Some(Color::Black));
    assert_eq!(style.decoration, Some(vec![Decoration::Bold]));
    assert_eq!(style.padding, Some(1));
    assert_eq!(style.margin, Some(1));
    assert_eq!(style.border_color, Some(Color::Yellow));
    assert_eq!(style.border_style, Some(BorderStyle::Rounded));
}

#[test]
fn test_tcss_macro() {
    let mut parser = Termio::new();

    let mut header_style = Style::default();
    header_style.fg = Some(Color::Green);
    header_style.bg = Some(Color::Black);
    header_style.decoration = Some(vec![Decoration::Bold]);
    header_style.padding = Some(1);
    header_style.margin = Some(1);
    header_style.border_color = Some(Color::Yellow);
    header_style.border_style = Some(BorderStyle::Rounded);
    parser.add_style("header", header_style);

    let mut warning_style = Style::default();
    warning_style.fg = Some(Color::Yellow);
    warning_style.bg = Some(Color::IntenseRed);
    warning_style.decoration = Some(vec![Decoration::Bold, Decoration::Italic]);
    warning_style.border_style = Some(BorderStyle::Dashed);
    warning_style.padding = Some(1);
    parser.add_style("warning", warning_style);

    let header = "Test Header".style("header", &parser);
    let warning = "Test Warning".style("warning", &parser);

    assert!(header.render().contains("\x1b[32m")); // green
    assert!(warning.render().contains("\x1b[33m")); // yellow
}
