//! The style record: an aggregate of optional visual attributes. Absent
//! fields apply nothing; per-side spacing falls back to the uniform value,
//! which falls back to zero.

use vstd::prelude::*;
use crate::border::BorderStyle;
use crate::color::Color;
use crate::decoration::Decoration;

verus! {

/// The mathematical value of a style record: the same fields, with the
/// decoration vector abstracted to a sequence.
pub struct StyleModel {
    pub fg: Option<Color>,
    pub bg: Option<Color>,
    pub decoration: Option<Seq<Decoration>>,
    pub padding: Option<u8>,
    pub padding_top: Option<u8>,
    pub padding_bottom: Option<u8>,
    pub padding_left: Option<u8>,
    pub padding_right: Option<u8>,
    pub margin: Option<u8>,
    pub margin_top: Option<u8>,
    pub margin_bottom: Option<u8>,
    pub margin_left: Option<u8>,
    pub margin_right: Option<u8>,
    pub border_color: Option<Color>,
    pub border_style: Option<BorderStyle>,
}

/// The model with every attribute absent.
pub open spec fn empty_style_model() -> StyleModel {
    StyleModel {
        fg: None,
        bg: None,
        decoration: None,
        padding: None,
        padding_top: None,
        padding_bottom: None,
        padding_left: None,
        padding_right: None,
        margin: None,
        margin_top: None,
        margin_bottom: None,
        margin_left: None,
        margin_right: None,
        border_color: None,
        border_style: None,
    }
}

/// A per-side spacing value: the explicit side value if present, else the
/// uniform value if present, else zero.
pub open spec fn side_value(side: Option<u8>, uniform: Option<u8>) -> nat {
    if side is Some {
        side->0 as nat
    } else if uniform is Some {
        uniform->0 as nat
    } else {
        0
    }
}

#[derive(Debug)]
pub struct Style {
    pub fg: Option<Color>,
    pub bg: Option<Color>,
    pub decoration: Option<Vec<Decoration>>,
    pub padding: Option<u8>,
    pub padding_top: Option<u8>,
    pub padding_bottom: Option<u8>,
    pub padding_left: Option<u8>,
    pub padding_right: Option<u8>,
    pub margin: Option<u8>,
    pub margin_top: Option<u8>,
    pub margin_bottom: Option<u8>,
    pub margin_left: Option<u8>,
    pub margin_right: Option<u8>,
    pub border_color: Option<Color>,
    pub border_style: Option<BorderStyle>,
}

impl View for Style {
    type V = StyleModel;

    open spec fn view(&self) -> StyleModel {
        StyleModel {
            fg: self.fg,
            bg: self.bg,
            decoration: if self.decoration is Some {
                Some(self.decoration->0@)
            } else {
                None
            },
            padding: self.padding,
            padding_top: self.padding_top,
            padding_bottom: self.padding_bottom,
            padding_left: self.padding_left,
            padding_right: self.padding_right,
            margin: self.margin,
            margin_top: self.margin_top,
            margin_bottom: self.margin_bottom,
            margin_left: self.margin_left,
            margin_right: self.margin_right,
            border_color: self.border_color,
            border_style: self.border_style,
        }
    }
}

pub(crate) fn clone_decos(v: &Vec<Decoration>) -> (r: Vec<Decoration>)
    ensures
        r@ == v@,
{
    let n: usize = v.len();
    let mut r: Vec<Decoration> = Vec::new();
    let mut i: usize = 0;
    while i < n
        invariant
            i <= n,
            n == v@.len(),
            r@ == v@.subrange(0, i as int),
        decreases n - i,
    {
        r.push(v[i]);
        proof {
            assert(r@ =~= v@.subrange(0, i + 1 as int));
        }
        i = i + 1;
    }
    proof {
        assert(v@.subrange(0, n as int) =~= v@);
    }
    r
}

impl Clone for Style {
    fn clone(&self) -> (r: Self)
        ensures
            r@ == self@,
    {
        Style {
            fg: self.fg,
            bg: self.bg,
            decoration: match &self.decoration {
                Some(v) => Some(clone_decos(v)),
                None => None,
            },
            padding: self.padding,
            padding_top: self.padding_top,
            padding_bottom: self.padding_bottom,
            padding_left: self.padding_left,
            padding_right: self.padding_right,
            margin: self.margin,
            margin_top: self.margin_top,
            margin_bottom: self.margin_bottom,
            margin_left: self.margin_left,
            margin_right: self.margin_right,
            border_color: self.border_color,
            border_style: self.border_style,
        }
    }
}

impl Style {
    /// Creates a new default style, with every attribute absent.
    pub fn new() -> (r: Self)
        ensures
            r@ == empty_style_model(),
    {
        Style {
            fg: None,
            bg: None,
            decoration: None,
            padding: None,
            margin: None,
            margin_top: None,
            margin_bottom: None,
            margin_left: None,
            margin_right: None,
            border_color: None,
            border_style: None,
            padding_top: None,
            padding_bottom: None,
            padding_left: None,
            padding_right: None,
        }
    }

    /// Sets the foreground color.
    pub fn fg(self, color: Color) -> (r: Self)
        ensures
            r@ == (StyleModel { fg: Some(color), ..self@ }),
    {
        let mut s = self;
        s.fg = Some(color);
        s
    }

    /// Sets the background color.
    pub fn bg(self, color: Color) -> (r: Self)
        ensures
            r@ == (StyleModel { bg: Some(color), ..self@ }),
    {
        let mut s = self;
        s.bg = Some(color);
        s
    }

    /// Sets the text decoration.
    pub fn decoration(self, deco: Vec<Decoration>) -> (r: Self)
        ensures
            r@ == (StyleModel { decoration: Some(deco@), ..self@ }),
    {
        let mut s = self;
        s.decoration = Some(deco);
        s
    }

    /// Sets the padding (spaces inside the border).
    pub fn padding(self, pad: u8) -> (r: Self)
        ensures
            r@ == (StyleModel { padding: Some(pad), ..self@ }),
    {
        let mut s = self;
        s.padding = Some(pad);
        s
    }

    /// Sets the top padding.
    pub fn padding_top(self, pad: u8) -> (r: Self)
        ensures
            r@ == (StyleModel { padding_top: Some(pad), ..self@ }),
    {
        let mut s = self;
        s.padding_top = Some(pad);
        s
    }

    /// Sets the bottom padding.
    pub fn padding_bottom(self, pad: u8) -> (r: Self)
        ensures
            r@ == (StyleModel { padding_bottom: Some(pad), ..self@ }),
    {
        let mut s = self;
        s.padding_bottom = Some(pad);
        s
    }

    /// Sets the left padding.
    pub fn padding_left(self, pad: u8) -> (r: Self)
        ensures
            r@ == (StyleModel { padding_left: Some(pad), ..self@ }),
    {
        let mut s = self;
        s.padding_left = Some(pad);
        s
    }

    /// Sets the right padding.
    pub fn padding_right(self, pad: u8) -> (r: Self)
        ensures
            r@ == (StyleModel { padding_right: Some(pad), ..self@ }),
    {
        let mut s = self;
        s.padding_right = Some(pad);
        s
    }

    /// Sets the margin (lines outside the border).
    pub fn margin(self, margin: u8) -> (r: Self)
        ensures
            r@ == (StyleModel { margin: Some(margin), ..self@ }),
    {
        let mut s = self;
        s.margin = Some(margin);
        s
    }

    /// Sets the top margin.
    pub fn margin_top(self, margin: u8) -> (r: Self)
        ensures
            r@ == (StyleModel { margin_top: Some(margin), ..self@ }),
    {
        let mut s = self;
        s.margin_top = Some(margin);
        s
    }

    /// Sets the bottom margin.
    pub fn margin_bottom(self, margin: u8) -> (r: Self)
        ensures
            r@ == (StyleModel { margin_bottom: Some(margin), ..self@ }),
    {
        let mut s = self;
        s.margin_bottom = Some(margin);
        s
    }

    /// Sets the left margin.
    pub fn margin_left(self, margin: u8) -> (r: Self)
        ensures
            r@ == (StyleModel { margin_left: Some(margin), ..self@ }),
    {
        let mut s = self;
        s.margin_left = Some(margin);
        s
    }

    /// Sets the right margin.
    pub fn margin_right(self, margin: u8) -> (r: Self)
        ensures
            r@ == (StyleModel { margin_right: Some(margin), ..self@ }),
    {
        let mut s = self;
        s.margin_right = Some(margin);
        s
    }

    /// Sets the border color.
    pub fn border_color(self, color: Color) -> (r: Self)
        ensures
            r@ == (StyleModel { border_color: Some(color), ..self@ }),
    {
        let mut s = self;
        s.border_color = Some(color);
        s
    }

    /// Sets the border style.
    pub fn border_style(self, style: BorderStyle) -> (r: Self)
        ensures
            r@ == (StyleModel { border_style: Some(style), ..self@ }),
    {
        let mut s = self;
        s.border_style = Some(style);
        s
    }
}

impl Default for Style {
    fn default() -> (r: Self)
        ensures
            r@ == empty_style_model(),
    {
        Style::new()
    }
}

} // verus!
