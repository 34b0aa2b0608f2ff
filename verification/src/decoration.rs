//! Text decorations: the 16 named attribute kinds and their escape
//! sequences. Several names intentionally share one attribute code
//! (conceal and hidden, crossed-out and strikethrough).

use vstd::prelude::*;
use vstd::string::StringExecFns;
use crate::chars::{chars_eq, chars_to_string, str_to_chars};

verus! {

#[derive(Clone, Copy, PartialEq, Eq, Structural, Debug)]
pub enum Decoration {
    Normal,
    Bold,
    Faint,
    Italic,
    Underline,
    Blink,
    RapidBlink,
    Reverse,
    Conceal,
    CrossedOut,
    DoubleUnderline,
    Overline,
    Hidden,
    Strikethrough,
    Framed,
    Encircled,
}

/// The attribute code of a decoration, as decimal digits.
pub open spec fn deco_code(d: Decoration) -> Seq<char> {
    match d {
        Decoration::Normal => seq!['0'],
        Decoration::Bold => seq!['1'],
        Decoration::Faint => seq!['2'],
        Decoration::Italic => seq!['3'],
        Decoration::Underline => seq!['4'],
        Decoration::Blink => seq!['5'],
        Decoration::RapidBlink => seq!['6'],
        Decoration::Reverse => seq!['7'],
        Decoration::Conceal => seq!['8'],
        Decoration::CrossedOut => seq!['9'],
        Decoration::DoubleUnderline => seq!['2', '1'],
        Decoration::Overline => seq!['5', '3'],
        Decoration::Hidden => seq!['8'],
        Decoration::Strikethrough => seq!['9'],
        Decoration::Framed => seq!['5', '1'],
        Decoration::Encircled => seq!['5', '2'],
    }
}

/// The full escape sequence of a decoration.
pub open spec fn deco_escape(d: Decoration) -> Seq<char> {
    seq!['\u{1b}', '['] + deco_code(d) + seq!['m']
}

/// The escape sequence that resets all attributes.
pub open spec fn reset_escape() -> Seq<char> {
    seq!['\u{1b}', '[', '0', 'm']
}

/// The decoration named by a token: an exact lower-case keyword match.
pub open spec fn deco_token_spec(s: Seq<char>) -> Option<Decoration> {
    if s == "none"@ {
        Some(Decoration::Normal)
    } else if s == "bold"@ {
        Some(Decoration::Bold)
    } else if s == "faint"@ {
        Some(Decoration::Faint)
    } else if s == "italic"@ {
        Some(Decoration::Italic)
    } else if s == "underline"@ {
        Some(Decoration::Underline)
    } else if s == "blink"@ {
        Some(Decoration::Blink)
    } else if s == "rapid-blink"@ {
        Some(Decoration::RapidBlink)
    } else if s == "reverse"@ {
        Some(Decoration::Reverse)
    } else if s == "conceal"@ {
        Some(Decoration::Conceal)
    } else if s == "crossed-out"@ {
        Some(Decoration::CrossedOut)
    } else if s == "double-underline"@ {
        Some(Decoration::DoubleUnderline)
    } else if s == "overline"@ {
        Some(Decoration::Overline)
    } else if s == "hidden"@ {
        Some(Decoration::Hidden)
    } else if s == "strikethrough"@ {
        Some(Decoration::Strikethrough)
    } else if s == "framed"@ {
        Some(Decoration::Framed)
    } else if s == "encircled"@ {
        Some(Decoration::Encircled)
    } else {
        None
    }
}


/// Appends the escape sequence of a decoration.
pub(crate) fn push_deco(out: &mut Vec<char>, d: Decoration)
    ensures
        final(out)@ == old(out)@ + deco_escape(d),
{
    out.push('\u{1b}');
    out.push('[');
    match d {
            Decoration::Normal => {
                out.push('0');
            },
            Decoration::Bold => {
                out.push('1');
            },
            Decoration::Faint => {
                out.push('2');
            },
            Decoration::Italic => {
                out.push('3');
            },
            Decoration::Underline => {
                out.push('4');
            },
            Decoration::Blink => {
                out.push('5');
            },
            Decoration::RapidBlink => {
                out.push('6');
            },
            Decoration::Reverse => {
                out.push('7');
            },
            Decoration::Conceal => {
                out.push('8');
            },
            Decoration::CrossedOut => {
                out.push('9');
            },
            Decoration::DoubleUnderline => {
                out.push('2');
                out.push('1');
            },
            Decoration::Overline => {
                out.push('5');
                out.push('3');
            },
            Decoration::Hidden => {
                out.push('8');
            },
            Decoration::Strikethrough => {
                out.push('9');
            },
            Decoration::Framed => {
                out.push('5');
                out.push('1');
            },
            Decoration::Encircled => {
                out.push('5');
                out.push('2');
            },
        }
    out.push('m');
    proof {
        assert(out@ =~= old(out)@ + deco_escape(d));
    }
}

/// Appends the escape sequence that resets all attributes.
pub(crate) fn push_reset(out: &mut Vec<char>)
    ensures
        final(out)@ == old(out)@ + reset_escape(),
{
    out.push('\u{1b}');
    out.push('[');
    out.push('0');
    out.push('m');
    proof {
        assert(out@ =~= old(out)@ + reset_escape());
    }
}

impl Decoration {
    /// Converts the decoration to an ANSI escape sequence.
    pub fn to_ansi(&self) -> (r: String)
        ensures
            r@ == deco_escape(*self),
    {
        let mut v: Vec<char> = Vec::new();
        push_deco(&mut v, *self);
        proof {
            assert(v@ =~= deco_escape(*self));
        }
        chars_to_string(&v)
    }

    /// Resets all decorations.
    pub fn reset() -> (r: String)
        ensures
            r@ == reset_escape(),
    {
        let mut v: Vec<char> = Vec::new();
        v.push('\u{1b}');
        v.push('[');
        v.push('0');
        v.push('m');
        proof {
            assert(v@ =~= reset_escape());
        }
        chars_to_string(&v)
    }

    /// Parses a decoration keyword held as a character vector.
    pub(crate) fn from_chars(v: &Vec<char>) -> (r: Option<Decoration>)
        ensures
            r == deco_token_spec(v@),
    {
        if chars_eq(v, &str_to_chars("none")) {
            return Some(Decoration::Normal);
        }
        if chars_eq(v, &str_to_chars("bold")) {
            return Some(Decoration::Bold);
        }
        if chars_eq(v, &str_to_chars("faint")) {
            return Some(Decoration::Faint);
        }
        if chars_eq(v, &str_to_chars("italic")) {
            return Some(Decoration::Italic);
        }
        if chars_eq(v, &str_to_chars("underline")) {
            return Some(Decoration::Underline);
        }
        if chars_eq(v, &str_to_chars("blink")) {
            return Some(Decoration::Blink);
        }
        if chars_eq(v, &str_to_chars("rapid-blink")) {
            return Some(Decoration::RapidBlink);
        }
        if chars_eq(v, &str_to_chars("reverse")) {
            return Some(Decoration::Reverse);
        }
        if chars_eq(v, &str_to_chars("conceal")) {
            return Some(Decoration::Conceal);
        }
        if chars_eq(v, &str_to_chars("crossed-out")) {
            return Some(Decoration::CrossedOut);
        }
        if chars_eq(v, &str_to_chars("double-underline")) {
            return Some(Decoration::DoubleUnderline);
        }
        if chars_eq(v, &str_to_chars("overline")) {
            return Some(Decoration::Overline);
        }
        if chars_eq(v, &str_to_chars("hidden")) {
            return Some(Decoration::Hidden);
        }
        if chars_eq(v, &str_to_chars("strikethrough")) {
            return Some(Decoration::Strikethrough);
        }
        if chars_eq(v, &str_to_chars("framed")) {
            return Some(Decoration::Framed);
        }
        if chars_eq(v, &str_to_chars("encircled")) {
            return Some(Decoration::Encircled);
        }
        None
    }

    /// Parses a decoration keyword.
    pub fn from_str(s: &str) -> (r: Result<Decoration, String>)
        ensures
            r is Ok <==> deco_token_spec(s@) is Some,
            r is Ok ==> r->Ok_0 == deco_token_spec(s@)->0,
    {
        let v = str_to_chars(s);
        match Decoration::from_chars(&v) {
            Some(d) => Ok(d),
            None => {
                let mut m = "Unknown decoration: ".to_owned();
                m.append(s);
                Err(m)
            },
        }
    }
}

} // verus!
