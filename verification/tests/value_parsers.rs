use terminal_css::{BorderStyle, Color, Decoration};

#[test]
fn color_names_parse_case_insensitively() {
    assert_eq!(Color::from_str("red"), Ok(Color::Red));
    assert_eq!(Color::from_str("RED"), Ok(Color::Red));
    assert_eq!(Color::from_str("Blue"), Ok(Color::Blue));
    assert_eq!(Color::from_str("black"), Ok(Color::Black));
    assert_eq!(Color::from_str("white"), Ok(Color::White));
    assert_eq!(Color::from_str("i-green"), Ok(Color::IntenseGreen));
    assert_eq!(Color::from_str("intense-green"), Ok(Color::IntenseGreen));
    assert_eq!(Color::from_str("I-Magenta"), Ok(Color::IntenseMagenta));
}

#[test]
fn color_rgb_and_palette_forms() {
    assert_eq!(Color::from_str("rgb(255, 0, 0)"), Ok(Color::Rgb(255, 0, 0)));
    assert_eq!(Color::from_str("rgb(1,2,3)"), Ok(Color::Rgb(1, 2, 3)));
    assert_eq!(Color::from_str("42"), Ok(Color::Code(42)));
    assert_eq!(Color::from_str("0"), Ok(Color::Code(0)));
    assert_eq!(Color::from_str("255"), Ok(Color::Code(255)));
}

#[test]
fn color_rejects_bad_tokens() {
    assert!(Color::from_str("no-such-color").is_err());
    assert!(Color::from_str("rgb(1,2)").is_err());
    assert!(Color::from_str("rgb(256, 0, 0)").is_err());
    assert!(Color::from_str("256").is_err());
    assert!(Color::from_str("").is_err());
    // the rgb introducer is matched on the raw token, so upper case fails
    assert!(Color::from_str("RGB(1,2,3)").is_err());
}

#[test]
fn color_escape_sequences_are_exact() {
    assert_eq!(Color::Red.to_ansi_foreground(), "\x1b[31m");
    assert_eq!(Color::Red.to_ansi_background(), "\x1b[41m");
    assert_eq!(Color::IntenseWhite.to_ansi_foreground(), "\x1b[97m");
    assert_eq!(Color::IntenseWhite.to_ansi_background(), "\x1b[107m");
    assert_eq!(Color::Code(7).to_ansi_foreground(), "\x1b[38;5;7m");
    assert_eq!(Color::Code(200).to_ansi_background(), "\x1b[48;5;200m");
    assert_eq!(Color::rgb(1, 22, 255).to_ansi_foreground(), "\x1b[38;2;1;22;255m");
    assert_eq!(Color::rgb(1, 22, 255).to_ansi_background(), "\x1b[48;2;1;22;255m");
}

#[test]
fn rgb_foreground_and_background_differ_only_in_introducer() {
    for &(r, g, b) in &[(0u8, 0u8, 0u8), (10, 20, 30), (255, 255, 255), (1, 128, 9)] {
        let fg = Color::Rgb(r, g, b).to_ansi_foreground();
        let bg = Color::Rgb(r, g, b).to_ansi_background();
        let payload = format!("{};{};{}", r, g, b);
        assert_eq!(fg, format!("\x1b[38;2;{}m", payload));
        assert_eq!(bg, format!("\x1b[48;2;{}m", payload));
        assert_eq!(fg.strip_prefix("\x1b[38;2;"), bg.strip_prefix("\x1b[48;2;"));
    }
}

#[test]
fn decoration_keywords_and_codes() {
    assert_eq!(Decoration::from_str("bold"), Ok(Decoration::Bold));
    assert_eq!(Decoration::from_str("rapid-blink"), Ok(Decoration::RapidBlink));
    assert_eq!(Decoration::from_str("double-underline"), Ok(Decoration::DoubleUnderline));
    assert_eq!(Decoration::from_str("none"), Ok(Decoration::Normal));
    assert!(Decoration::from_str("Bold").is_err());
    assert!(Decoration::from_str("shiny").is_err());

    assert_eq!(Decoration::Bold.to_ansi(), "\x1b[1m");
    assert_eq!(Decoration::DoubleUnderline.to_ansi(), "\x1b[21m");
    assert_eq!(Decoration::reset(), "\x1b[0m");
    // intentional aliasing: two names, one attribute code
    assert_eq!(Decoration::Conceal.to_ansi(), Decoration::Hidden.to_ansi());
    assert_eq!(Decoration::CrossedOut.to_ansi(), Decoration::Strikethrough.to_ansi());
}

#[test]
fn border_keywords() {
    assert_eq!(BorderStyle::from_str("solid"), Ok(BorderStyle::Solid));
    assert_eq!(BorderStyle::from_str("dashed"), Ok(BorderStyle::Dashed));
    assert_eq!(BorderStyle::from_str("rounded"), Ok(BorderStyle::Rounded));
    assert_eq!(BorderStyle::from_str("double"), Ok(BorderStyle::Double));
    assert!(BorderStyle::from_str("dotted").is_err());
    assert!(BorderStyle::from_str("Solid").is_err());
}
