//! Terminal colors: 8 named base colors, their 8 intense variants, an 8-bit
//! palette code, and a 24-bit RGB triple, with their foreground and
//! background escape sequences and the textual color-token parser.

use vstd::prelude::*;
use vstd::string::StringExecFns;
use crate::chars::{
    ascii_lower, ascii_lower_spec, chars_eq, chars_to_string, parse_u8, parse_u8_spec,
    split_char, split_char_spec, starts_with, starts_with_spec, str_to_chars, subvec,
    trim_chars, trim_spec, u8_digits, push_u8_digits,
};

verus! {

#[derive(Clone, Copy, PartialEq, Eq, Structural, Debug)]
pub enum Color {
    Black,
    Red,
    Green,
    Yellow,
    Blue,
    Magenta,
    Cyan,
    White,
    IntenseBlack,
    IntenseRed,
    IntenseGreen,
    IntenseYellow,
    IntenseBlue,
    IntenseMagenta,
    IntenseCyan,
    IntenseWhite,
    Code(u8),
    Rgb(u8, u8, u8),
}

/// The decimal components of an RGB triple, semicolon-separated, exactly as
/// they stand in both the foreground and the background escape sequence.
pub open spec fn rgb_payload(r: u8, g: u8, b: u8) -> Seq<char> {
    u8_digits(r) + seq![';'] + u8_digits(g) + seq![';'] + u8_digits(b)
}

/// The code part of the foreground escape sequence for a color.
pub open spec fn fg_code(c: Color) -> Seq<char> {
    match c {
        Color::Black => seq!['3', '0'],
        Color::Red => seq!['3', '1'],
        Color::Green => seq!['3', '2'],
        Color::Yellow => seq!['3', '3'],
        Color::Blue => seq!['3', '4'],
        Color::Magenta => seq!['3', '5'],
        Color::Cyan => seq!['3', '6'],
        Color::White => seq!['3', '7'],
        Color::IntenseBlack => seq!['9', '0'],
        Color::IntenseRed => seq!['9', '1'],
        Color::IntenseGreen => seq!['9', '2'],
        Color::IntenseYellow => seq!['9', '3'],
        Color::IntenseBlue => seq!['9', '4'],
        Color::IntenseMagenta => seq!['9', '5'],
        Color::IntenseCyan => seq!['9', '6'],
        Color::IntenseWhite => seq!['9', '7'],
        Color::Code(u) => seq!['3', '8', ';', '5', ';'] + u8_digits(u),
        Color::Rgb(r, g, b) => seq!['3', '8', ';', '2', ';'] + rgb_payload(r, g, b),
    }
}

/// The code part of the background escape sequence for a color.
pub open spec fn bg_code(c: Color) -> Seq<char> {
    match c {
        Color::Black => seq!['4', '0'],
        Color::Red => seq!['4', '1'],
        Color::Green => seq!['4', '2'],
        Color::Yellow => seq!['4', '3'],
        Color::Blue => seq!['4', '4'],
        Color::Magenta => seq!['4', '5'],
        Color::Cyan => seq!['4', '6'],
        Color::White => seq!['4', '7'],
        Color::IntenseBlack => seq!['1', '0', '0'],
        Color::IntenseRed => seq!['1', '0', '1'],
        Color::IntenseGreen => seq!['1', '0', '2'],
        Color::IntenseYellow => seq!['1', '0', '3'],
        Color::IntenseBlue => seq!['1', '0', '4'],
        Color::IntenseMagenta => seq!['1', '0', '5'],
        Color::IntenseCyan => seq!['1', '0', '6'],
        Color::IntenseWhite => seq!['1', '0', '7'],
        Color::Code(u) => seq!['4', '8', ';', '5', ';'] + u8_digits(u),
        Color::Rgb(r, g, b) => seq!['4', '8', ';', '2', ';'] + rgb_payload(r, g, b),
    }
}

/// The full foreground escape sequence for a color.
pub open spec fn fg_escape(c: Color) -> Seq<char> {
    seq!['\u{1b}', '['] + fg_code(c) + seq!['m']
}

/// The full background escape sequence for a color.
pub open spec fn bg_escape(c: Color) -> Seq<char> {
    seq!['\u{1b}', '['] + bg_code(c) + seq!['m']
}

/// The foreground and background escape sequences of an RGB color differ
/// only in their introducer code and carry the components unchanged.
pub proof fn lemma_rgb_escapes_share_payload(r: u8, g: u8, b: u8)
    ensures
        fg_escape(Color::Rgb(r, g, b)) == seq!['\u{1b}', '[', '3', '8', ';', '2', ';']
            + rgb_payload(r, g, b) + seq!['m'],
        bg_escape(Color::Rgb(r, g, b)) == seq!['\u{1b}', '[', '4', '8', ';', '2', ';']
            + rgb_payload(r, g, b) + seq!['m'],
{
    assert(fg_escape(Color::Rgb(r, g, b)) =~= seq!['\u{1b}', '[', '3', '8', ';', '2', ';']
        + rgb_payload(r, g, b) + seq!['m']);
    assert(bg_escape(Color::Rgb(r, g, b)) =~= seq!['\u{1b}', '[', '4', '8', ';', '2', ';']
        + rgb_payload(r, g, b) + seq!['m']);
}

/// Whether a token has the shape `rgb(` ... `)` with exactly three
/// comma-separated pieces inside.
pub open spec fn is_rgb_form(s: Seq<char>) -> bool {
    starts_with_spec(s, "rgb("@)
        && s.len() >= 5
        && s[s.len() - 1] == ')'
        && split_char_spec(s.subrange(4, s.len() - 1), ',').len() == 3
}

/// The RGB triple of a token of that shape, if all three trimmed pieces
/// parse as bytes.
pub open spec fn rgb_of(s: Seq<char>) -> Option<Color> {
    let parts = split_char_spec(s.subrange(4, s.len() - 1), ',');
    let pr = parse_u8_spec(trim_spec(parts[0]));
    let pg = parse_u8_spec(trim_spec(parts[1]));
    let pb = parse_u8_spec(trim_spec(parts[2]));
    if pr is Some && pg is Some && pb is Some {
        Some(Color::Rgb(pr->0, pg->0, pb->0))
    } else {
        None
    }
}

/// The color named by a token, if any: a case-insensitive color name, an
/// `rgb(r,g,b)` triple, or a bare byte value used as a palette code.
pub open spec fn color_token_spec(s: Seq<char>) -> Option<Color> {
    let low = ascii_lower_spec(s);
    if low == "black"@ {
        Some(Color::Black)
    } else if low == "red"@ {
        Some(Color::Red)
    } else if low == "green"@ {
        Some(Color::Green)
    } else if low == "yellow"@ {
        Some(Color::Yellow)
    } else if low == "blue"@ {
        Some(Color::Blue)
    } else if low == "magenta"@ {
        Some(Color::Magenta)
    } else if low == "cyan"@ {
        Some(Color::Cyan)
    } else if low == "white"@ {
        Some(Color::White)
    } else if low == "i-black"@ || low == "intense-black"@ {
        Some(Color::IntenseBlack)
    } else if low == "i-red"@ || low == "intense-red"@ {
        Some(Color::IntenseRed)
    } else if low == "i-green"@ || low == "intense-green"@ {
        Some(Color::IntenseGreen)
    } else if low == "i-yellow"@ || low == "intense-yellow"@ {
        Some(Color::IntenseYellow)
    } else if low == "i-blue"@ || low == "intense-blue"@ {
        Some(Color::IntenseBlue)
    } else if low == "i-magenta"@ || low == "intense-magenta"@ {
        Some(Color::IntenseMagenta)
    } else if low == "i-cyan"@ || low == "intense-cyan"@ {
        Some(Color::IntenseCyan)
    } else if low == "i-white"@ || low == "intense-white"@ {
        Some(Color::IntenseWhite)
    } else if is_rgb_form(s) {
        rgb_of(s)
    } else if parse_u8_spec(s) is Some {
        Some(Color::Code(parse_u8_spec(s)->0))
    } else {
        None
    }
}


/// Appends the foreground escape sequence of a color.
pub(crate) fn push_fg(out: &mut Vec<char>, c: Color)
    ensures
        final(out)@ == old(out)@ + fg_escape(c),
{
    out.push('\u{1b}');
    out.push('[');
    match c {
            Color::Black => {
                out.push('3');
                out.push('0');
            },
            Color::Red => {
                out.push('3');
                out.push('1');
            },
            Color::Green => {
                out.push('3');
                out.push('2');
            },
            Color::Yellow => {
                out.push('3');
                out.push('3');
            },
            Color::Blue => {
                out.push('3');
                out.push('4');
            },
            Color::Magenta => {
                out.push('3');
                out.push('5');
            },
            Color::Cyan => {
                out.push('3');
                out.push('6');
            },
            Color::White => {
                out.push('3');
                out.push('7');
            },
            Color::IntenseBlack => {
                out.push('9');
                out.push('0');
            },
            Color::IntenseRed => {
                out.push('9');
                out.push('1');
            },
            Color::IntenseGreen => {
                out.push('9');
                out.push('2');
            },
            Color::IntenseYellow => {
                out.push('9');
                out.push('3');
            },
            Color::IntenseBlue => {
                out.push('9');
                out.push('4');
            },
            Color::IntenseMagenta => {
                out.push('9');
                out.push('5');
            },
            Color::IntenseCyan => {
                out.push('9');
                out.push('6');
            },
            Color::IntenseWhite => {
                out.push('9');
                out.push('7');
            },
            Color::Code(u) => {
                out.push('3');
                out.push('8');
                out.push(';');
                out.push('5');
                out.push(';');
                push_u8_digits(out, u);
            },
            Color::Rgb(r, g, b) => {
                out.push('3');
                out.push('8');
                out.push(';');
                out.push('2');
                out.push(';');
                push_u8_digits(out, r);
                out.push(';');
                push_u8_digits(out, g);
                out.push(';');
                push_u8_digits(out, b);
            },
        }
    out.push('m');
    proof {
        assert(out@ =~= old(out)@ + fg_escape(c));
    }
}

/// Appends the background escape sequence of a color.
pub(crate) fn push_bg(out: &mut Vec<char>, c: Color)
    ensures
        final(out)@ == old(out)@ + bg_escape(c),
{
    out.push('\u{1b}');
    out.push('[');
    match c {
            Color::Black => {
                out.push('4');
                out.push('0');
            },
            Color::Red => {
                out.push('4');
                out.push('1');
            },
            Color::Green => {
                out.push('4');
                out.push('2');
            },
            Color::Yellow => {
                out.push('4');
                out.push('3');
            },
            Color::Blue => {
                out.push('4');
                out.push('4');
            },
            Color::Magenta => {
                out.push('4');
                out.push('5');
            },
            Color::Cyan => {
                out.push('4');
                out.push('6');
            },
            Color::White => {
                out.push('4');
                out.push('7');
            },
            Color::IntenseBlack => {
                out.push('1');
                out.push('0');
                out.push('0');
            },
            Color::IntenseRed => {
                out.push('1');
                out.push('0');
                out.push('1');
            },
            Color::IntenseGreen => {
                out.push('1');
                out.push('0');
                out.push('2');
            },
            Color::IntenseYellow => {
                out.push('1');
                out.push('0');
                out.push('3');
            },
            Color::IntenseBlue => {
                out.push('1');
                out.push('0');
                out.push('4');
            },
            Color::IntenseMagenta => {
                out.push('1');
                out.push('0');
                out.push('5');
            },
            Color::IntenseCyan => {
                out.push('1');
                out.push('0');
                out.push('6');
            },
            Color::IntenseWhite => {
                out.push('1');
                out.push('0');
                out.push('7');
            },
            Color::Code(u) => {
                out.push('4');
                out.push('8');
                out.push(';');
                out.push('5');
                out.push(';');
                push_u8_digits(out, u);
            },
            Color::Rgb(r, g, b) => {
                out.push('4');
                out.push('8');
                out.push(';');
                out.push('2');
                out.push(';');
                push_u8_digits(out, r);
                out.push(';');
                push_u8_digits(out, g);
                out.push(';');
                push_u8_digits(out, b);
            },
        }
    out.push('m');
    proof {
        assert(out@ =~= old(out)@ + bg_escape(c));
    }
}

impl Color {
    /// Creates a custom RGB color.
    pub fn rgb(r: u8, g: u8, b: u8) -> (c: Self)
        ensures
            c == Color::Rgb(r, g, b),
    {
        Color::Rgb(r, g, b)
    }

    /// Converts the color to an ANSI foreground color code.
    pub fn to_ansi_foreground(&self) -> (r: String)
        ensures
            r@ == fg_escape(*self),
    {
        let mut v: Vec<char> = Vec::new();
        push_fg(&mut v, *self);
        proof {
            assert(v@ =~= fg_escape(*self));
        }
        chars_to_string(&v)
    }

    /// Converts the color to an ANSI background color code.
    pub fn to_ansi_background(&self) -> (r: String)
        ensures
            r@ == bg_escape(*self),
    {
        let mut v: Vec<char> = Vec::new();
        push_bg(&mut v, *self);
        proof {
            assert(v@ =~= bg_escape(*self));
        }
        chars_to_string(&v)
    }

    /// Parses a color token held as a character vector.
    pub(crate) fn from_chars(v: &Vec<char>) -> (r: Option<Color>)
        ensures
            r == color_token_spec(v@),
    {
        let low = ascii_lower(v);
        if chars_eq(&low, &str_to_chars("black")) {
            return Some(Color::Black);
        }
        if chars_eq(&low, &str_to_chars("red")) {
            return Some(Color::Red);
        }
        if chars_eq(&low, &str_to_chars("green")) {
            return Some(Color::Green);
        }
        if chars_eq(&low, &str_to_chars("yellow")) {
            return Some(Color::Yellow);
        }
        if chars_eq(&low, &str_to_chars("blue")) {
            return Some(Color::Blue);
        }
        if chars_eq(&low, &str_to_chars("magenta")) {
            return Some(Color::Magenta);
        }
        if chars_eq(&low, &str_to_chars("cyan")) {
            return Some(Color::Cyan);
        }
        if chars_eq(&low, &str_to_chars("white")) {
            return Some(Color::White);
        }
        if chars_eq(&low, &str_to_chars("i-black")) || chars_eq(&low, &str_to_chars("intense-black")) {
            return Some(Color::IntenseBlack);
        }
        if chars_eq(&low, &str_to_chars("i-red")) || chars_eq(&low, &str_to_chars("intense-red")) {
            return Some(Color::IntenseRed);
        }
        if chars_eq(&low, &str_to_chars("i-green")) || chars_eq(&low, &str_to_chars("intense-green")) {
            return Some(Color::IntenseGreen);
        }
        if chars_eq(&low, &str_to_chars("i-yellow")) || chars_eq(&low, &str_to_chars("intense-yellow")) {
            return Some(Color::IntenseYellow);
        }
        if chars_eq(&low, &str_to_chars("i-blue")) || chars_eq(&low, &str_to_chars("intense-blue")) {
            return Some(Color::IntenseBlue);
        }
        if chars_eq(&low, &str_to_chars("i-magenta")) || chars_eq(&low, &str_to_chars("intense-magenta")) {
            return Some(Color::IntenseMagenta);
        }
        if chars_eq(&low, &str_to_chars("i-cyan")) || chars_eq(&low, &str_to_chars("intense-cyan")) {
            return Some(Color::IntenseCyan);
        }
        if chars_eq(&low, &str_to_chars("i-white")) || chars_eq(&low, &str_to_chars("intense-white")) {
            return Some(Color::IntenseWhite);
        }
        let n: usize = v.len();
        if starts_with(v, &str_to_chars("rgb(")) && n >= 5 && v[n - 1] == ')' {
            proof {
                crate::chars::lemma_split_char_len(v@.subrange(4, v@.len() - 1), ',');
            }
            let inner = subvec(v, 4, n - 1);
            let parts = split_char(&inner, ',');
            if parts.len() == 3 {
                let p0 = trim_chars(&parts[0]);
                let p1 = trim_chars(&parts[1]);
                let p2 = trim_chars(&parts[2]);
                let r0 = parse_u8(&p0);
                let r1 = parse_u8(&p1);
                let r2 = parse_u8(&p2);
                if r0.is_some() && r1.is_some() && r2.is_some() {
                    return Some(Color::Rgb(r0.unwrap(), r1.unwrap(), r2.unwrap()));
                }
                return None;
            }
        }
        match parse_u8(v) {
            Some(code) => Some(Color::Code(code)),
            None => None,
        }
    }

    /// Parses a string into a color.
    /// Supports color names (e.g. `black`, `i-red`), `rgb(r, g, b)` triples,
    /// and bare byte values used as 8-bit palette codes.
    pub fn from_str(s: &str) -> (r: Result<Color, String>)
        ensures
            r is Ok <==> color_token_spec(s@) is Some,
            r is Ok ==> r->Ok_0 == color_token_spec(s@)->0,
    {
        let v = str_to_chars(s);
        match Color::from_chars(&v) {
            Some(c) => Ok(c),
            None => {
                let mut m = "Unknown color: ".to_owned();
                m.append(s);
                Err(m)
            },
        }
    }
}

} // verus!
