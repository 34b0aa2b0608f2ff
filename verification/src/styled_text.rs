//! The box-model renderer: a styled string and the exact escape-coded text
//! it draws, layered as margin, border, padding and content, with box sizes
//! computed from display widths, not character counts.

use vstd::prelude::*;
use crate::border::BorderStyle;
use crate::chars::{chars_to_string, lines_spec, split_lines, str_to_chars, views_of};
use crate::color::{bg_escape, fg_escape, push_bg, push_fg, Color};
use crate::decoration::{deco_escape, push_deco, push_reset, reset_escape, Decoration};
use crate::style::{empty_style_model, side_value, Style, StyleModel};
use crate::termio::Termio;
use crate::width::{measure_width, measure_width_cjk, text_width, text_width_cjk};

verus! {

/// Widths above this bound are not laid out; they cannot arise from text
/// that fits in memory.
pub const MAX_RENDER_WIDTH: usize = usize::MAX / 2 - 1024;

/// `n` copies of one character.
pub open spec fn seq_repeat(c: char, n: nat) -> Seq<char> {
    Seq::new(n, |i: int| c)
}

/// `n` copies of one row.
pub open spec fn repeat_row(row: Seq<char>, n: nat) -> Seq<char>
    decreases n,
{
    if n == 0 {
        Seq::empty()
    } else {
        repeat_row(row, (n - 1) as nat) + row
    }
}

/// The escape sequences of a decoration list, in order.
pub open spec fn decos_escape(ds: Seq<Decoration>) -> Seq<char>
    decreases ds.len(),
{
    if ds.len() == 0 {
        Seq::empty()
    } else {
        decos_escape(ds.drop_last()) + deco_escape(ds.last())
    }
}

/// The escape prefix applied to text: foreground, background, decorations,
/// each only when present.
pub open spec fn text_style_spec(m: StyleModel) -> Seq<char> {
    (if m.fg is Some {
        fg_escape(m.fg->0)
    } else {
        Seq::empty()
    }) + (if m.bg is Some {
        bg_escape(m.bg->0)
    } else {
        Seq::empty()
    }) + (if m.decoration is Some {
        decos_escape(m.decoration->0)
    } else {
        Seq::empty()
    })
}

/// The escape prefix applied to border glyphs: the border color as a
/// foreground color, when present.
pub open spec fn border_color_spec(m: StyleModel) -> Seq<char> {
    if m.border_color is Some {
        fg_escape(m.border_color->0)
    } else {
        Seq::empty()
    }
}

/// The background fill escape, when present.
pub open spec fn bg_style_spec(m: StyleModel) -> Seq<char> {
    if m.bg is Some {
        bg_escape(m.bg->0)
    } else {
        Seq::empty()
    }
}

/// The six glyphs a border is drawn with. Without a border style every
/// position degrades to a single space.
#[derive(Clone, Copy, PartialEq, Eq, Structural, Debug)]
pub struct BorderChars {
    pub top_left: char,
    pub top_right: char,
    pub bottom_left: char,
    pub bottom_right: char,
    pub horizontal: char,
    pub vertical: char,
}

/// The glyph set of each border kind.
pub open spec fn border_chars_of(b: Option<BorderStyle>) -> BorderChars {
    match b {
        Some(BorderStyle::Solid) => BorderChars {
            top_left: '┌',
            top_right: '┐',
            bottom_left: '└',
            bottom_right: '┘',
            horizontal: '─',
            vertical: '│',
        },
        Some(BorderStyle::Dashed) => BorderChars {
            top_left: '┌',
            top_right: '┐',
            bottom_left: '└',
            bottom_right: '┘',
            horizontal: '┈',
            vertical: '┊',
        },
        Some(BorderStyle::Rounded) => BorderChars {
            top_left: '╭',
            top_right: '╮',
            bottom_left: '╰',
            bottom_right: '╯',
            horizontal: '─',
            vertical: '│',
        },
        Some(BorderStyle::Double) => BorderChars {
            top_left: '╔',
            top_right: '╗',
            bottom_left: '╚',
            bottom_right: '╝',
            horizontal: '═',
            vertical: '║',
        },
        None => BorderChars {
            top_left: ' ',
            top_right: ' ',
            bottom_left: ' ',
            bottom_right: ' ',
            horizontal: ' ',
            vertical: ' ',
        },
    }
}

/// Resolved top padding.
pub open spec fn pad_top(m: StyleModel) -> nat {
    side_value(m.padding_top, m.padding)
}

/// Resolved bottom padding.
pub open spec fn pad_bottom(m: StyleModel) -> nat {
    side_value(m.padding_bottom, m.padding)
}

/// Resolved left padding.
pub open spec fn pad_left(m: StyleModel) -> nat {
    side_value(m.padding_left, m.padding)
}

/// Resolved right padding.
pub open spec fn pad_right(m: StyleModel) -> nat {
    side_value(m.padding_right, m.padding)
}

/// Resolved top margin.
pub open spec fn margin_top(m: StyleModel) -> nat {
    side_value(m.margin_top, m.margin)
}

/// Resolved bottom margin.
pub open spec fn margin_bottom(m: StyleModel) -> nat {
    side_value(m.margin_bottom, m.margin)
}

/// Resolved left margin.
pub open spec fn margin_left(m: StyleModel) -> nat {
    side_value(m.margin_left, m.margin)
}

/// Resolved right margin.
pub open spec fn margin_right(m: StyleModel) -> nat {
    side_value(m.margin_right, m.margin)
}

/// The widest display width over the lines, in a CJK context.
pub open spec fn max_cjk(lines: Seq<Seq<char>>) -> nat
    decreases lines.len(),
{
    if lines.len() == 0 {
        0
    } else {
        let rest = max_cjk(lines.drop_last());
        let w = text_width_cjk(lines.last());
        if w > rest {
            w
        } else {
            rest
        }
    }
}

pub proof fn lemma_max_cjk_ge(lines: Seq<Seq<char>>, i: int)
    requires
        0 <= i < lines.len(),
    ensures
        text_width_cjk(lines[i]) <= max_cjk(lines),
    decreases lines.len(),
{
    if i < lines.len() - 1 {
        lemma_max_cjk_ge(lines.drop_last(), i);
    }
}

/// Subtraction clamped at zero.
pub open spec fn sat_sub(a: nat, b: nat) -> nat {
    if a >= b {
        (a - b) as nat
    } else {
        0
    }
}

/// The fill after a text line: the gap up to the widest line, plus the gap
/// between the line's two width measures, so that narrow and wide lines
/// reach the same display column.
pub open spec fn fill_width(line: Seq<char>, mw: nat) -> nat {
    sat_sub(mw, text_width(line)) + sat_sub(text_width_cjk(line), text_width(line))
}

/// The border edge drawn beside a row: border color, vertical glyph, reset.
pub open spec fn edge_spec(bordered: bool, bs: Seq<char>, vch: char) -> Seq<char> {
    if bordered {
        bs + seq![vch] + reset_escape()
    } else {
        Seq::empty()
    }
}

/// The top border row, newline included.
pub open spec fn top_border_row_spec(ml: nat, bs: Seq<char>, bc: BorderChars, cw: nat) -> Seq<
    char,
> {
    seq_repeat(' ', ml) + bs + seq![bc.top_left] + seq_repeat(bc.horizontal, cw)
        + seq![bc.top_right] + reset_escape() + seq!['\n']
}

/// The bottom border row, without a trailing newline.
pub open spec fn bottom_border_row_spec(ml: nat, bs: Seq<char>, bc: BorderChars, cw: nat) -> Seq<
    char,
> {
    seq_repeat(' ', ml) + bs + seq![bc.bottom_left] + seq_repeat(bc.horizontal, cw)
        + seq![bc.bottom_right] + reset_escape()
}

/// One padding row: framed and filled when bordered, else a bare newline.
pub open spec fn pad_row_spec(
    bordered: bool,
    ml: nat,
    bs: Seq<char>,
    bg: Seq<char>,
    bc: BorderChars,
    cw: nat,
) -> Seq<char> {
    if bordered {
        seq_repeat(' ', ml) + bs + seq![bc.vertical] + bg + seq_repeat(' ', cw) + reset_escape()
            + bs + seq![bc.vertical] + reset_escape() + seq!['\n']
    } else {
        seq!['\n']
    }
}

/// One text row: margin, border edge, left padding, styled text, fill,
/// right padding, border edge; the newline only under a border.
pub open spec fn text_row_spec(
    line: Seq<char>,
    bordered: bool,
    ml: nat,
    bs: Seq<char>,
    bg: Seq<char>,
    ts: Seq<char>,
    bc: BorderChars,
    pl: nat,
    pr: nat,
    mw: nat,
) -> Seq<char> {
    seq_repeat(' ', ml) + edge_spec(bordered, bs, bc.vertical) + bg + seq_repeat(' ', pl) + ts
        + line + seq_repeat(' ', fill_width(line, mw)) + reset_escape() + bg + seq_repeat(
        ' ',
        pr,
    ) + reset_escape() + edge_spec(bordered, bs, bc.vertical) + (if bordered {
        seq!['\n']
    } else {
        Seq::empty()
    })
}

/// The first `n` text rows, concatenated.
pub open spec fn text_rows_spec(
    lines: Seq<Seq<char>>,
    n: int,
    bordered: bool,
    ml: nat,
    bs: Seq<char>,
    bg: Seq<char>,
    ts: Seq<char>,
    bc: BorderChars,
    pl: nat,
    pr: nat,
    mw: nat,
) -> Seq<char>
    decreases n,
{
    if n <= 0 {
        Seq::empty()
    } else {
        text_rows_spec(lines, n - 1, bordered, ml, bs, bg, ts, bc, pl, pr, mw) + text_row_spec(
            lines[n - 1],
            bordered,
            ml,
            bs,
            bg,
            ts,
            bc,
            pl,
            pr,
            mw,
        )
    }
}

/// The complete rendering of `text` under style model `m`: top margin, top
/// border, top padding, text rows, bottom padding, bottom border, bottom
/// margin. Row structure follows the box model exactly; in particular a
/// text row ends in a newline only when a border is drawn.
pub open spec fn render_spec(text: Seq<char>, m: StyleModel) -> Seq<char> {
    let lines = lines_spec(text);
    let mw = max_cjk(lines);
    let bordered = m.border_style is Some;
    let bc = border_chars_of(m.border_style);
    let bs = border_color_spec(m);
    let bg = bg_style_spec(m);
    let ts = text_style_spec(m);
    let ml = margin_left(m);
    let pl = pad_left(m);
    let pr = pad_right(m);
    let cw = mw + pl + pr;
    seq_repeat('\n', margin_top(m)) + (if bordered {
        top_border_row_spec(ml, bs, bc, cw)
    } else {
        Seq::empty()
    }) + repeat_row(pad_row_spec(bordered, ml, bs, bg, bc, cw), pad_top(m)) + text_rows_spec(
        lines,
        lines.len() as int,
        bordered,
        ml,
        bs,
        bg,
        ts,
        bc,
        pl,
        pr,
        mw,
    ) + repeat_row(pad_row_spec(bordered, ml, bs, bg, bc, cw), pad_bottom(m)) + (if bordered {
        bottom_border_row_spec(ml, bs, bc, cw)
    } else {
        Seq::empty()
    }) + seq_repeat('\n', margin_bottom(m))
}

/// Appends `n` copies of a character.
pub(crate) fn push_repeat(out: &mut Vec<char>, c: char, n: usize)
    ensures
        final(out)@ == old(out)@ + seq_repeat(c, n as nat),
{
    let mut i: usize = 0;
    while i < n
        invariant
            i <= n,
            out@ == old(out)@ + seq_repeat(c, i as nat),
        decreases n - i,
    {
        out.push(c);
        proof {
            assert(out@ =~= old(out)@ + seq_repeat(c, (i + 1) as nat));
        }
        i = i + 1;
    }
}

/// Appends all characters of `v`.
pub(crate) fn push_all(out: &mut Vec<char>, v: &Vec<char>)
    ensures
        final(out)@ == old(out)@ + v@,
{
    let n: usize = v.len();
    let mut i: usize = 0;
    while i < n
        invariant
            i <= n,
            n == v@.len(),
            out@ == old(out)@ + v@.subrange(0, i as int),
        decreases n - i,
    {
        out.push(v[i]);
        proof {
            assert(out@ =~= old(out)@ + v@.subrange(0, (i + 1) as int));
        }
        i = i + 1;
    }
    proof {
        assert(old(out)@ + v@.subrange(0, n as int) =~= old(out)@ + v@);
    }
}

/// Resolved padding values for the four sides.
pub(crate) struct Padding {
    pub top: usize,
    pub bottom: usize,
    pub left: usize,
    pub right: usize,
}

/// Resolved margin values for the four sides.
pub(crate) struct Margin {
    pub top: usize,
    pub bottom: usize,
    pub left: usize,
    pub right: usize,
}

fn resolve_side(side: &Option<u8>, uniform: u8) -> (r: usize)
    ensures
        r == side_value(*side, Some(uniform)),
        r <= 255,
{
    match side {
        Some(v) => *v as usize,
        None => uniform as usize,
    }
}

/// A string with an applied style record.
#[derive(Clone)]
pub struct StyledString {
    pub(crate) text: String,
    pub(crate) style: Style,
}

impl StyledString {
    /// The characters of the text body.
    pub closed spec fn text_view(&self) -> Seq<char> {
        self.text@
    }

    /// The style model applied to the text.
    pub closed spec fn style_view(&self) -> StyleModel {
        self.style@
    }

    /// Creates a new styled string with the given text and style.
    pub(crate) fn new(text: String, style: Style) -> (r: Self)
        ensures
            r.text_view() == text@,
            r.style_view() == style@,
    {
        StyledString { text, style }
    }

    /// Gets the foreground color.
    pub fn get_fg(&self) -> (r: Option<Color>)
        ensures
            r == self.style_view().fg,
    {
        self.style.fg
    }

    /// Gets the background color.
    pub fn get_bg(&self) -> (r: Option<Color>)
        ensures
            r == self.style_view().bg,
    {
        self.style.bg
    }

    /// Gets the text decoration.
    pub fn get_decoration(&self) -> (r: Option<Vec<Decoration>>)
        ensures
            r is Some <==> self.style_view().decoration is Some,
            r is Some ==> r->0@ == self.style_view().decoration->0,
    {
        match &self.style.decoration {
            Some(v) => Some(crate::style::clone_decos(v)),
            None => None,
        }
    }

    /// Gets the text content.
    pub fn get_text(&self) -> (r: &str)
        ensures
            r@ == self.text_view(),
    {
        self.text.as_str()
    }

    /// Sets the text color.
    pub fn color(self, color: Color) -> (r: Self)
        ensures
            r.text_view() == self.text_view(),
            r.style_view() == (StyleModel { fg: Some(color), ..self.style_view() }),
    {
        let mut s = self;
        s.style.fg = Some(color);
        s
    }

    /// Sets the background color.
    pub fn bg(self, color: Color) -> (r: Self)
        ensures
            r.text_view() == self.text_view(),
            r.style_view() == (StyleModel { bg: Some(color), ..self.style_view() }),
    {
        let mut s = self;
        s.style.bg = Some(color);
        s
    }

    /// Adds a decoration to the end of the decoration list, starting one if
    /// none is present.
    pub fn decoration(self, decoration: Decoration) -> (r: Self)
        ensures
            r.text_view() == self.text_view(),
            r.style_view() == (StyleModel {
                decoration: Some(
                    if self.style_view().decoration is Some {
                        self.style_view().decoration->0.push(decoration)
                    } else {
                        seq![decoration]
                    },
                ),
                ..self.style_view()
            }),
    {
        let mut s = self;
        match &mut s.style.decoration {
            Some(decs) => {
                decs.push(decoration);
            },
            None => {
                let mut v: Vec<Decoration> = Vec::new();
                v.push(decoration);
                s.style.decoration = Some(v);
                proof {
                    assert(v@ =~= seq![decoration]);
                }
            },
        }
        s
    }

    /// Sets the padding on all sides.
    pub fn padding(self, padding: u8) -> (r: Self)
        ensures
            r.text_view() == self.text_view(),
            r.style_view() == (StyleModel { padding: Some(padding), ..self.style_view() }),
    {
        let mut s = self;
        s.style.padding = Some(padding);
        s
    }

    /// Sets the padding of the four sides: top, right, bottom, left.
    pub fn padding_trbl(self, top: u8, right: u8, bottom: u8, left: u8) -> (r: Self)
        ensures
            r.text_view() == self.text_view(),
            r.style_view() == (StyleModel {
                padding_top: Some(top),
                padding_right: Some(right),
                padding_bottom: Some(bottom),
                padding_left: Some(left),
                ..self.style_view()
            }),
    {
        let mut s = self;
        s.style.padding_top = Some(top);
        s.style.padding_right = Some(right);
        s.style.padding_bottom = Some(bottom);
        s.style.padding_left = Some(left);
        s
    }

    /// Sets the margin on all sides.
    pub fn margin(self, margin: u8) -> (r: Self)
        ensures
            r.text_view() == self.text_view(),
            r.style_view() == (StyleModel { margin: Some(margin), ..self.style_view() }),
    {
        let mut s = self;
        s.style.margin = Some(margin);
        s
    }

    /// Sets the border style.
    pub fn border(self, style: BorderStyle) -> (r: Self)
        ensures
            r.text_view() == self.text_view(),
            r.style_view() == (StyleModel { border_style: Some(style), ..self.style_view() }),
    {
        let mut s = self;
        s.style.border_style = Some(style);
        s
    }

    /// Sets the border color.
    pub fn border_color(self, color: Color) -> (r: Self)
        ensures
            r.text_view() == self.text_view(),
            r.style_view() == (StyleModel { border_color: Some(color), ..self.style_view() }),
    {
        let mut s = self;
        s.style.border_color = Some(color);
        s
    }

    /// Calculates the resolved padding and margin values from the style.
    fn calculate_spacing(&self) -> (r: (Padding, Margin))
        ensures
            r.0.top == pad_top(self.style_view()),
            r.0.bottom == pad_bottom(self.style_view()),
            r.0.left == pad_left(self.style_view()),
            r.0.right == pad_right(self.style_view()),
            r.1.top == margin_top(self.style_view()),
            r.1.bottom == margin_bottom(self.style_view()),
            r.1.left == margin_left(self.style_view()),
            r.1.right == margin_right(self.style_view()),
            r.0.top <= 255 && r.0.bottom <= 255 && r.0.left <= 255 && r.0.right <= 255,
            r.1.top <= 255 && r.1.bottom <= 255 && r.1.left <= 255 && r.1.right <= 255,
    {
        let padding: u8 = match self.style.padding {
            Some(p) => p,
            None => 0,
        };
        let margin: u8 = match self.style.margin {
            Some(m) => m,
            None => 0,
        };
        (
            Padding {
                top: resolve_side(&self.style.padding_top, padding),
                bottom: resolve_side(&self.style.padding_bottom, padding),
                left: resolve_side(&self.style.padding_left, padding),
                right: resolve_side(&self.style.padding_right, padding),
            },
            Margin {
                top: resolve_side(&self.style.margin_top, margin),
                bottom: resolve_side(&self.style.margin_bottom, margin),
                left: resolve_side(&self.style.margin_left, margin),
                right: resolve_side(&self.style.margin_right, margin),
            },
        )
    }

    /// Calculates total content width and block height including padding.
    fn calculate_dimensions(&self, max_width: usize, text_height: usize, padding: &Padding) -> (r:
        (usize, usize))
        requires
            max_width <= MAX_RENDER_WIDTH,
            padding.left <= 255,
            padding.right <= 255,
            padding.top <= 255,
            padding.bottom <= 255,
        ensures
            r.0 == max_width + padding.left + padding.right,
    {
        let content_width: usize = max_width + padding.left + padding.right;
        let total_height: usize = if text_height <= usize::MAX - padding.top - padding.bottom {
            text_height + padding.top + padding.bottom
        } else {
            usize::MAX
        };
        (content_width, total_height)
    }

    /// Builds the text style escape prefix: colors and decorations.
    fn build_text_style(&self) -> (r: Vec<char>)
        ensures
            r@ == text_style_spec(self.style_view()),
    {
        let ghost m = self.style@;
        let ghost fgp = if m.fg is Some {
            fg_escape(m.fg->0)
        } else {
            Seq::<char>::empty()
        };
        let ghost bgp = if m.bg is Some {
            bg_escape(m.bg->0)
        } else {
            Seq::<char>::empty()
        };
        let mut v: Vec<char> = Vec::new();
        match &self.style.fg {
            Some(c) => {
                push_fg(&mut v, *c);
            },
            None => {},
        }
        proof {
            assert(v@ =~= fgp);
        }
        match &self.style.bg {
            Some(c) => {
                push_bg(&mut v, *c);
            },
            None => {},
        }
        proof {
            assert(v@ =~= fgp + bgp);
        }
        match &self.style.decoration {
            Some(ds) => {
                let n: usize = ds.len();
                let mut i: usize = 0;
                while i < n
                    invariant
                        i <= n,
                        n == ds@.len(),
                        v@ == fgp + bgp + decos_escape(ds@.subrange(0, i as int)),
                    decreases n - i,
                {
                    push_deco(&mut v, ds[i]);
                    proof {
                        let cur = ds@.subrange(0, (i + 1) as int);
                        assert(cur.drop_last() =~= ds@.subrange(0, i as int));
                        assert(cur.last() == ds@[i as int]);
                        assert(v@ =~= fgp + bgp + decos_escape(cur));
                    }
                    i = i + 1;
                }
                proof {
                    assert(ds@.subrange(0, n as int) =~= ds@);
                }
            },
            None => {
                proof {
                    assert(v@ =~= fgp + bgp + Seq::<char>::empty());
                }
            },
        }
        proof {
            assert(v@ =~= text_style_spec(m));
        }
        v
    }

    /// Builds the border style escape prefix: the border color, if any.
    fn build_border_style(&self) -> (r: Vec<char>)
        ensures
            r@ == border_color_spec(self.style_view()),
    {
        let mut v: Vec<char> = Vec::new();
        match &self.style.border_color {
            Some(c) => {
                push_fg(&mut v, *c);
            },
            None => {},
        }
        proof {
            assert(v@ =~= border_color_spec(self.style@));
        }
        v
    }

    /// Builds the background fill escape prefix, if any.
    fn build_background_style(&self) -> (r: Vec<char>)
        ensures
            r@ == bg_style_spec(self.style_view()),
    {
        let mut v: Vec<char> = Vec::new();
        match &self.style.bg {
            Some(c) => {
                push_bg(&mut v, *c);
            },
            None => {},
        }
        proof {
            assert(v@ =~= bg_style_spec(self.style@));
        }
        v
    }

    /// Gets the border glyph set of the current style.
    fn get_border_chars(&self) -> (r: BorderChars)
        ensures
            r == border_chars_of(self.style_view().border_style),
    {
        match self.style.border_style {
            Some(BorderStyle::Solid) => BorderChars {
                top_left: '┌',
                top_right: '┐',
                bottom_left: '└',
                bottom_right: '┘',
                horizontal: '─',
                vertical: '│',
            },
            Some(BorderStyle::Dashed) => BorderChars {
                top_left: '┌',
                top_right: '┐',
                bottom_left: '└',
                bottom_right: '┘',
                horizontal: '┈',
                vertical: '┊',
            },
            Some(BorderStyle::Rounded) => BorderChars {
                top_left: '╭',
                top_right: '╮',
                bottom_left: '╰',
                bottom_right: '╯',
                horizontal: '─',
                vertical: '│',
            },
            Some(BorderStyle::Double) => BorderChars {
                top_left: '╔',
                top_right: '╗',
                bottom_left: '╚',
                bottom_right: '╝',
                horizontal: '═',
                vertical: '║',
            },
            None => BorderChars {
                top_left: ' ',
                top_right: ' ',
                bottom_left: ' ',
                bottom_right: ' ',
                horizontal: ' ',
                vertical: ' ',
            },
        }
    }
}

/// Builds the border edge drawn beside a row.
fn build_edge(bordered: bool, bsv: &Vec<char>, vch: char) -> (r: Vec<char>)
    ensures
        r@ == edge_spec(bordered, bsv@, vch),
{
    let mut v: Vec<char> = Vec::new();
    if bordered {
        push_all(&mut v, bsv);
        proof {
            assert(v@ =~= bsv@);
        }
        v.push(vch);
        proof {
            assert(v@ =~= bsv@ + seq![vch]);
        }
        push_reset(&mut v);
    }
    proof {
        assert(v@ =~= edge_spec(bordered, bsv@, vch));
    }
    v
}

/// Builds the top border row.
fn build_top_border_row(ml: usize, bsv: &Vec<char>, bc: BorderChars, cw: usize) -> (r: Vec<char>)
    ensures
        r@ == top_border_row_spec(ml as nat, bsv@, bc, cw as nat),
{
    let mut v: Vec<char> = Vec::new();
    push_repeat(&mut v, ' ', ml);
    proof {
        assert(v@ =~= seq_repeat(' ', ml as nat));
    }
    push_all(&mut v, bsv);
    v.push(bc.top_left);
    proof {
        assert(v@ =~= seq_repeat(' ', ml as nat) + bsv@ + seq![bc.top_left]);
    }
    push_repeat(&mut v, bc.horizontal, cw);
    v.push(bc.top_right);
    proof {
        assert(v@ =~= seq_repeat(' ', ml as nat) + bsv@ + seq![bc.top_left] + seq_repeat(
            bc.horizontal,
            cw as nat,
        ) + seq![bc.top_right]);
    }
    push_reset(&mut v);
    v.push('\n');
    proof {
        assert(v@ =~= top_border_row_spec(ml as nat, bsv@, bc, cw as nat));
    }
    v
}

/// Builds the bottom border row.
fn build_bottom_border_row(ml: usize, bsv: &Vec<char>, bc: BorderChars, cw: usize) -> (r: Vec<
    char,
>)
    ensures
        r@ == bottom_border_row_spec(ml as nat, bsv@, bc, cw as nat),
{
    let mut v: Vec<char> = Vec::new();
    push_repeat(&mut v, ' ', ml);
    proof {
        assert(v@ =~= seq_repeat(' ', ml as nat));
    }
    push_all(&mut v, bsv);
    v.push(bc.bottom_left);
    proof {
        assert(v@ =~= seq_repeat(' ', ml as nat) + bsv@ + seq![bc.bottom_left]);
    }
    push_repeat(&mut v, bc.horizontal, cw);
    v.push(bc.bottom_right);
    proof {
        assert(v@ =~= seq_repeat(' ', ml as nat) + bsv@ + seq![bc.bottom_left] + seq_repeat(
            bc.horizontal,
            cw as nat,
        ) + seq![bc.bottom_right]);
    }
    push_reset(&mut v);
    proof {
        assert(v@ =~= bottom_border_row_spec(ml as nat, bsv@, bc, cw as nat));
    }
    v
}

/// Builds one padding row.
fn build_pad_row(
    bordered: bool,
    ml: usize,
    bsv: &Vec<char>,
    bgv: &Vec<char>,
    bc: BorderChars,
    cw: usize,
) -> (r: Vec<char>)
    ensures
        r@ == pad_row_spec(bordered, ml as nat, bsv@, bgv@, bc, cw as nat),
{
    let mut v: Vec<char> = Vec::new();
    if bordered {
        push_repeat(&mut v, ' ', ml);
        proof {
            assert(v@ =~= seq_repeat(' ', ml as nat));
        }
        push_all(&mut v, bsv);
        v.push(bc.vertical);
        proof {
            assert(v@ =~= seq_repeat(' ', ml as nat) + bsv@ + seq![bc.vertical]);
        }
        push_all(&mut v, bgv);
        push_repeat(&mut v, ' ', cw);
        push_reset(&mut v);
        push_all(&mut v, bsv);
        v.push(bc.vertical);
        proof {
            assert(v@ =~= seq_repeat(' ', ml as nat) + bsv@ + seq![bc.vertical] + bgv@
                + seq_repeat(' ', cw as nat) + reset_escape() + bsv@ + seq![bc.vertical]);
        }
        push_reset(&mut v);
        v.push('\n');
        proof {
            assert(v@ =~= pad_row_spec(bordered, ml as nat, bsv@, bgv@, bc, cw as nat));
        }
    } else {
        v.push('\n');
        proof {
            assert(v@ =~= pad_row_spec(bordered, ml as nat, bsv@, bgv@, bc, cw as nat));
        }
    }
    v
}

/// Builds one text row.
fn build_text_row(
    line: &Vec<char>,
    bordered: bool,
    ml: usize,
    bsv: &Vec<char>,
    bgv: &Vec<char>,
    tsv: &Vec<char>,
    bc: BorderChars,
    pl: usize,
    pr: usize,
    mw: usize,
) -> (r: Vec<char>)
    requires
        mw <= MAX_RENDER_WIDTH,
        text_width_cjk(line@) <= mw as nat,
    ensures
        r@ == text_row_spec(
            line@,
            bordered,
            ml as nat,
            bsv@,
            bgv@,
            tsv@,
            bc,
            pl as nat,
            pr as nat,
            mw as nat,
        ),
{
    let w: usize = measure_width(line);
    let cjk: usize = measure_width_cjk(line);
    let base: usize = if mw >= w {
        mw - w
    } else {
        0
    };
    let extra: usize = if cjk >= w {
        cjk - w
    } else {
        0
    };
    let fill: usize = base + extra;
    proof {
        assert(fill as nat == fill_width(line@, mw as nat));
    }
    let edge = build_edge(bordered, bsv, bc.vertical);
    let mut v: Vec<char> = Vec::new();
    push_repeat(&mut v, ' ', ml);
    proof {
        assert(v@ =~= seq_repeat(' ', ml as nat));
    }
    push_all(&mut v, &edge);
    push_all(&mut v, bgv);
    push_repeat(&mut v, ' ', pl);
    push_all(&mut v, tsv);
    push_all(&mut v, line);
    push_repeat(&mut v, ' ', fill);
    push_reset(&mut v);
    push_all(&mut v, bgv);
    push_repeat(&mut v, ' ', pr);
    push_reset(&mut v);
    push_all(&mut v, &edge);
    if bordered {
        v.push('\n');
        proof {
            assert(v@ =~= text_row_spec(
                line@,
                bordered,
                ml as nat,
                bsv@,
                bgv@,
                tsv@,
                bc,
                pl as nat,
                pr as nat,
                mw as nat,
            ));
        }
    } else {
        proof {
            assert(v@ =~= text_row_spec(
                line@,
                bordered,
                ml as nat,
                bsv@,
                bgv@,
                tsv@,
                bc,
                pl as nat,
                pr as nat,
                mw as nat,
            ));
        }
    }
    v
}

impl StyledString {
    /// Draws the complete element: margin, border, padding and styled text
    /// rows, exactly as `render_spec` lays them out. Text whose widest line
    /// exceeds `MAX_RENDER_WIDTH` display columns is returned unchanged;
    /// no text that fits in memory reaches that bound.
    pub fn render(&self) -> (out: String)
        ensures
            ({
                let t = self.text_view();
                let m = self.style_view();
                if max_cjk(lines_spec(t)) <= MAX_RENDER_WIDTH as nat {
                    out@ == render_spec(t, m)
                } else {
                    out@ == t
                }
            }),
    {
        let chars = str_to_chars(self.text.as_str());
        let lines = split_lines(&chars);
        let n: usize = lines.len();
        let ghost lv = lines_spec(self.text@);
        let mut mw: usize = 0;
        let mut i: usize = 0;
        while i < n
            invariant
                i <= n,
                n == lines@.len(),
                views_of(lines@) == lv,
                mw as nat == max_cjk(lv.subrange(0, i as int)),
            decreases n - i,
        {
            let w = measure_width_cjk(&lines[i]);
            proof {
                let cur = lv.subrange(0, (i + 1) as int);
                assert(cur.drop_last() =~= lv.subrange(0, i as int));
                assert(cur.last() == lv[i as int]);
                assert(lines@[i as int]@ == lv[i as int]);
            }
            if w > mw {
                mw = w;
            }
            i = i + 1;
        }
        proof {
            assert(lv.subrange(0, n as int) =~= lv);
        }
        if mw > MAX_RENDER_WIDTH {
            return chars_to_string(&chars);
        }
        let (padding, margin) = self.calculate_spacing();
        let dims = self.calculate_dimensions(mw, n, &padding);
        let content_width: usize = dims.0;
        let tsv = self.build_text_style();
        let bsv = self.build_border_style();
        let bgv = self.build_background_style();
        let bc = self.get_border_chars();
        let bordered: bool = self.style.border_style.is_some();
        let ghost m = self.style@;
        let mut out: Vec<char> = Vec::new();

        push_repeat(&mut out, '\n', margin.top);
        let ghost p1 = seq_repeat('\n', margin_top(m));
        proof {
            assert(out@ =~= p1);
        }

        if bordered {
            let row = build_top_border_row(margin.left, &bsv, bc, content_width);
            push_all(&mut out, &row);
        }
        let ghost p2 = p1 + (if m.border_style is Some {
            top_border_row_spec(margin_left(m), bsv@, bc, content_width as nat)
        } else {
            Seq::<char>::empty()
        });
        proof {
            if !bordered {
                assert(p1 + Seq::<char>::empty() =~= p1);
            }
            assert(out@ == p2);
        }

        let padrow = build_pad_row(bordered, margin.left, &bsv, &bgv, bc, content_width);
        let ghost prow = pad_row_spec(
            bordered,
            margin.left as nat,
            bsv@,
            bgv@,
            bc,
            content_width as nat,
        );
        let mut k: usize = 0;
        while k < padding.top
            invariant
                k <= padding.top,
                padrow@ == prow,
                out@ == p2 + repeat_row(prow, k as nat),
            decreases padding.top - k,
        {
            push_all(&mut out, &padrow);
            proof {
                assert((p2 + repeat_row(prow, k as nat)) + prow =~= p2 + repeat_row(
                    prow,
                    (k + 1) as nat,
                ));
            }
            k = k + 1;
        }
        let ghost p3 = p2 + repeat_row(prow, pad_top(m));

        let mut idx: usize = 0;
        while idx < n
            invariant
                idx <= n,
                n == lines@.len(),
                views_of(lines@) == lv,
                mw <= MAX_RENDER_WIDTH,
                mw as nat == max_cjk(lv),
                padding.left <= 255,
                padding.right <= 255,
                out@ == p3 + text_rows_spec(
                    lv,
                    idx as int,
                    bordered,
                    margin.left as nat,
                    bsv@,
                    bgv@,
                    tsv@,
                    bc,
                    padding.left as nat,
                    padding.right as nat,
                    mw as nat,
                ),
            decreases n - idx,
        {
            proof {
                lemma_max_cjk_ge(lv, idx as int);
                assert(lines@[idx as int]@ == lv[idx as int]);
            }
            let row = build_text_row(
                &lines[idx],
                bordered,
                margin.left,
                &bsv,
                &bgv,
                &tsv,
                bc,
                padding.left,
                padding.right,
                mw,
            );
            push_all(&mut out, &row);
            proof {
                let pre = text_rows_spec(
                    lv,
                    idx as int,
                    bordered,
                    margin.left as nat,
                    bsv@,
                    bgv@,
                    tsv@,
                    bc,
                    padding.left as nat,
                    padding.right as nat,
                    mw as nat,
                );
                let cur = text_rows_spec(
                    lv,
                    (idx + 1) as int,
                    bordered,
                    margin.left as nat,
                    bsv@,
                    bgv@,
                    tsv@,
                    bc,
                    padding.left as nat,
                    padding.right as nat,
                    mw as nat,
                );
                assert((p3 + pre) + row@ =~= p3 + cur);
            }
            idx = idx + 1;
        }
        let ghost p4 = p3 + text_rows_spec(
            lv,
            lv.len() as int,
            bordered,
            margin_left(m),
            bsv@,
            bgv@,
            tsv@,
            bc,
            pad_left(m),
            pad_right(m),
            mw as nat,
        );
        proof {
            assert(out@ == p4);
        }

        let mut k2: usize = 0;
        while k2 < padding.bottom
            invariant
                k2 <= padding.bottom,
                padrow@ == prow,
                out@ == p4 + repeat_row(prow, k2 as nat),
            decreases padding.bottom - k2,
        {
            push_all(&mut out, &padrow);
            proof {
                assert((p4 + repeat_row(prow, k2 as nat)) + prow =~= p4 + repeat_row(
                    prow,
                    (k2 + 1) as nat,
                ));
            }
            k2 = k2 + 1;
        }
        let ghost p5 = p4 + repeat_row(prow, pad_bottom(m));

        if bordered {
            let row = build_bottom_border_row(margin.left, &bsv, bc, content_width);
            push_all(&mut out, &row);
        }
        let ghost p6 = p5 + (if m.border_style is Some {
            bottom_border_row_spec(margin_left(m), bsv@, bc, content_width as nat)
        } else {
            Seq::<char>::empty()
        });
        proof {
            if !bordered {
                assert(p5 + Seq::<char>::empty() =~= p5);
            }
            assert(out@ == p6);
        }

        push_repeat(&mut out, '\n', margin.bottom);
        proof {
            assert(out@ == p6 + seq_repeat('\n', margin_bottom(m)));
            assert(out@ == render_spec(self.text@, m));
        }
        chars_to_string(&out)
    }
}

/// Rendering is a function of the text and the style model alone: equal
/// pairs render to byte-identical output, so repeated rendering of one
/// styled string is idempotent on the result.
pub proof fn lemma_render_deterministic(
    t1: Seq<char>,
    m1: StyleModel,
    t2: Seq<char>,
    m2: StyleModel,
)
    requires
        t1 == t2,
        m1 == m2,
    ensures
        render_spec(t1, m1) == render_spec(t2, m2),
{
}

/// Text that can be styled: either by looking a rule up in a registry by
/// name, or by setting single attributes directly.
pub trait StyledText: Sized {
    /// The characters of the text.
    spec fn text_of(&self) -> Seq<char>;

    /// Applies a style from a registry by name; an unknown name applies
    /// the all-defaults record.
    fn style(self, style_name: &str, tcss: &Termio) -> (r: StyledString)
        requires
            tcss.wf(),
        ensures
            r.text_view() == self.text_of(),
            r.style_view() == (if tcss.map_view().contains_key(style_name@) {
                tcss.map_view()[style_name@]
            } else {
                empty_style_model()
            }),
    ;

    /// Sets the text color.
    fn color(self, color: Color) -> (r: StyledString)
        ensures
            r.text_view() == self.text_of(),
            r.style_view() == (StyleModel { fg: Some(color), ..empty_style_model() }),
    ;

    /// Sets the background color.
    fn bg(self, color: Color) -> (r: StyledString)
        ensures
            r.text_view() == self.text_of(),
            r.style_view() == (StyleModel { bg: Some(color), ..empty_style_model() }),
    ;

    /// Adds a decoration.
    fn decoration(self, decoration: Decoration) -> (r: StyledString)
        ensures
            r.text_view() == self.text_of(),
            r.style_view() == (StyleModel {
                decoration: Some(seq![decoration]),
                ..empty_style_model()
            }),
    ;

    /// Sets the padding on all sides.
    fn padding(self, padding: u8) -> (r: StyledString)
        ensures
            r.text_view() == self.text_of(),
            r.style_view() == (StyleModel { padding: Some(padding), ..empty_style_model() }),
    ;

    /// Sets the padding of the four sides: top, right, bottom, left.
    fn padding_trbl(self, top: u8, right: u8, bottom: u8, left: u8) -> (r: StyledString)
        ensures
            r.text_view() == self.text_of(),
            r.style_view() == (StyleModel {
                padding_top: Some(top),
                padding_right: Some(right),
                padding_bottom: Some(bottom),
                padding_left: Some(left),
                ..empty_style_model()
            }),
    ;

    /// Sets the margin on all sides.
    fn margin(self, margin: u8) -> (r: StyledString)
        ensures
            r.text_view() == self.text_of(),
            r.style_view() == (StyleModel { margin: Some(margin), ..empty_style_model() }),
    ;

    /// Sets the border style.
    fn border(self, style: BorderStyle) -> (r: StyledString)
        ensures
            r.text_view() == self.text_of(),
            r.style_view() == (StyleModel {
                border_style: Some(style),
                ..empty_style_model()
            }),
    ;

    /// Sets the border color.
    fn border_color(self, color: Color) -> (r: StyledString)
        ensures
            r.text_view() == self.text_of(),
            r.style_view() == (StyleModel {
                border_color: Some(color),
                ..empty_style_model()
            }),
    ;
}

impl StyledText for String {
    open spec fn text_of(&self) -> Seq<char> {
        self@
    }

    fn style(self, style_name: &str, tcss: &Termio) -> (r: StyledString) {
        let style = match tcss.get_style(style_name) {
            Some(s) => s,
            None => Style::new(),
        };
        StyledString::new(self, style)
    }

    fn color(self, color: Color) -> (r: StyledString) {
        let mut style = Style::new();
        style.fg = Some(color);
        StyledString::new(self, style)
    }

    fn bg(self, color: Color) -> (r: StyledString) {
        let mut style = Style::new();
        style.bg = Some(color);
        StyledString::new(self, style)
    }

    fn decoration(self, decoration: Decoration) -> (r: StyledString) {
        let mut style = Style::new();
        let mut v: Vec<Decoration> = Vec::new();
        v.push(decoration);
        proof {
            assert(v@ =~= seq![decoration]);
        }
        style.decoration = Some(v);
        StyledString::new(self, style)
    }

    fn padding(self, padding: u8) -> (r: StyledString) {
        let mut style = Style::new();
        style.padding = Some(padding);
        StyledString::new(self, style)
    }

    fn padding_trbl(self, top: u8, right: u8, bottom: u8, left: u8) -> (r: StyledString) {
        let mut style = Style::new();
        style.padding_top = Some(top);
        style.padding_right = Some(right);
        style.padding_bottom = Some(bottom);
        style.padding_left = Some(left);
        StyledString::new(self, style)
    }

    fn margin(self, margin: u8) -> (r: StyledString) {
        let mut style = Style::new();
        style.margin = Some(margin);
        StyledString::new(self, style)
    }

    fn border(self, style: BorderStyle) -> (r: StyledString) {
        let mut s = Style::new();
        s.border_style = Some(style);
        StyledString::new(self, s)
    }

    fn border_color(self, color: Color) -> (r: StyledString) {
        let mut style = Style::new();
        style.border_color = Some(color);
        StyledString::new(self, style)
    }
}

impl StyledText for &str {
    open spec fn text_of(&self) -> Seq<char> {
        self@
    }

    fn style(self, style_name: &str, tcss: &Termio) -> (r: StyledString) {
        let style = match tcss.get_style(style_name) {
            Some(s) => s,
            None => Style::new(),
        };
        StyledString::new(self.to_owned(), style)
    }

    fn color(self, color: Color) -> (r: StyledString) {
        let mut style = Style::new();
        style.fg = Some(color);
        StyledString::new(self.to_owned(), style)
    }

    fn bg(self, color: Color) -> (r: StyledString) {
        let mut style = Style::new();
        style.bg = Some(color);
        StyledString::new(self.to_owned(), style)
    }

    fn decoration(self, decoration: Decoration) -> (r: StyledString) {
        let mut style = Style::new();
        let mut v: Vec<Decoration> = Vec::new();
        v.push(decoration);
        proof {
            assert(v@ =~= seq![decoration]);
        }
        style.decoration = Some(v);
        StyledString::new(self.to_owned(), style)
    }

    fn padding(self, padding: u8) -> (r: StyledString) {
        let mut style = Style::new();
        style.padding = Some(padding);
        StyledString::new(self.to_owned(), style)
    }

    fn padding_trbl(self, top: u8, right: u8, bottom: u8, left: u8) -> (r: StyledString) {
        let mut style = Style::new();
        style.padding_top = Some(top);
        style.padding_right = Some(right);
        style.padding_bottom = Some(bottom);
        style.padding_left = Some(left);
        StyledString::new(self.to_owned(), style)
    }

    fn margin(self, margin: u8) -> (r: StyledString) {
        let mut style = Style::new();
        style.margin = Some(margin);
        StyledString::new(self.to_owned(), style)
    }

    fn border(self, style: BorderStyle) -> (r: StyledString) {
        let mut s = Style::new();
        s.border_style = Some(style);
        StyledString::new(self.to_owned(), s)
    }

    fn border_color(self, color: Color) -> (r: StyledString) {
        let mut style = Style::new();
        style.border_color = Some(color);
        StyledString::new(self.to_owned(), style)
    }
}

} // verus!
