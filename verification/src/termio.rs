//! The style registry and the declaration-language parser: named blocks of
//! `property: value` lines, parsed line by line into style records and
//! committed into a name-keyed table. A name collision from declaration
//! source is an error; programmatic insertion overwrites.

use vstd::prelude::*;
use vstd::string::StrSliceExecFns;
use vstd::string::StringExecFns;
use crate::border::{border_token_spec, BorderStyle};
use crate::chars::{
    chars_eq, chars_to_string, first_idx, lines_spec, parse_u8, parse_u8_spec, split_char,
    split_char_spec, split_lines, split_ws, split_ws_spec, starts_with, starts_with_spec,
    str_to_chars, strip_semis, strip_semis_spec, subvec, trim_chars, trim_spec, views_of,
};
use crate::color::{color_token_spec, Color};
use crate::decoration::{deco_token_spec, Decoration};
use crate::style::{empty_style_model, Style, StyleModel};

verus! {

/// An error surfaced by parsing declaration source.
#[derive(Debug)]
pub enum ParseError {
    InvalidSyntax(String),
    DuplicateElement(String),
}

/// The mathematical value of a parse error: its kind, and for a duplicate
/// the offending name.
pub enum ParseErrorModel {
    InvalidSyntax,
    DuplicateElement(Seq<char>),
}

impl View for ParseError {
    type V = ParseErrorModel;

    open spec fn view(&self) -> ParseErrorModel {
        match self {
            ParseError::InvalidSyntax(_) => ParseErrorModel::InvalidSyntax,
            ParseError::DuplicateElement(s) => ParseErrorModel::DuplicateElement(s@),
        }
    }
}

impl ParseError {
    /// A human-readable description of the error, naming its kind and
    /// carrying its detail text.
    pub fn message(&self) -> (r: String)
        ensures
            ({
                match self {
                    ParseError::InvalidSyntax(m) => r@ == "Invalid syntax: "@ + m@,
                    ParseError::DuplicateElement(n) => r@ == "Duplicate element name: "@ + n@,
                }
            }),
    {
        match self {
            ParseError::InvalidSyntax(msg) => {
                let mut m = "Invalid syntax: ".to_owned();
                m.append(msg.as_str());
                m
            },
            ParseError::DuplicateElement(name) => {
                let mut m = "Duplicate element name: ".to_owned();
                m.append(name.as_str());
                m
            },
        }
    }
}

impl From<String> for ParseError {
    fn from(s: String) -> (r: Self)
        ensures
            r@ == ParseErrorModel::InvalidSyntax,
    {
        ParseError::InvalidSyntax(s)
    }
}

impl vstd::std_specs::convert::FromSpecImpl<String> for ParseError {
    open spec fn obeys_from_spec() -> bool {
        true
    }

    open spec fn from_spec(s: String) -> Self {
        ParseError::InvalidSyntax(s)
    }
}

/// Whether no two entries share a name.
pub open spec fn keys_unique(ps: Seq<(String, Style)>) -> bool {
    forall|i: int, j: int| 0 <= i < j < ps.len() ==> ps[i].0@ != ps[j].0@
}

/// The name-to-style mapping held by a sequence of entries; a later entry
/// with the same name overrides an earlier one.
pub open spec fn pairs_map(ps: Seq<(String, Style)>) -> Map<Seq<char>, StyleModel>
    decreases ps.len(),
{
    if ps.len() == 0 {
        Map::empty()
    } else {
        pairs_map(ps.drop_last()).insert(ps.last().0@, ps.last().1@)
    }
}

pub proof fn lemma_pairs_map_contains(ps: Seq<(String, Style)>, k: Seq<char>)
    ensures
        pairs_map(ps).contains_key(k) <==> exists|i: int|
            0 <= i < ps.len() && #[trigger] ps[i].0@ == k,
    decreases ps.len(),
{
    if ps.len() > 0 {
        lemma_pairs_map_contains(ps.drop_last(), k);
        if pairs_map(ps).contains_key(k) {
            if ps.last().0@ == k {
                assert(ps[ps.len() - 1].0@ == k);
            } else {
                let i = choose|i: int| 0 <= i < ps.len() - 1 && #[trigger] ps.drop_last()[i].0@
                    == k;
                assert(ps[i].0@ == k);
            }
        }
        if exists|i: int| 0 <= i < ps.len() && #[trigger] ps[i].0@ == k {
            let i = choose|i: int| 0 <= i < ps.len() && #[trigger] ps[i].0@ == k;
            if i < ps.len() - 1 {
                assert(ps.drop_last()[i].0@ == k);
            }
        }
    }
}

pub proof fn lemma_pairs_map_at(ps: Seq<(String, Style)>, i: int)
    requires
        keys_unique(ps),
        0 <= i < ps.len(),
    ensures
        pairs_map(ps).contains_key(ps[i].0@),
        pairs_map(ps)[ps[i].0@] == ps[i].1@,
    decreases ps.len(),
{
    lemma_pairs_map_contains(ps, ps[i].0@);
    if i < ps.len() - 1 {
        assert(ps[i].0@ != ps.last().0@);
        assert(keys_unique(ps.drop_last())) by {
            assert(forall|a: int, b: int|
                0 <= a < b < ps.len() - 1 ==> ps.drop_last()[a].0@ == ps[a].0@
                    && ps.drop_last()[b].0@ == ps[b].0@);
        }
        assert(ps.drop_last()[i] == ps[i]);
        lemma_pairs_map_at(ps.drop_last(), i);
    }
}

/// The style registry: an insertion-unordered table from rule name to style
/// record, owned by this instance.
#[derive(Debug)]
pub struct Termio {
    styles: Vec<(String, Style)>,
}

impl Termio {
    /// Whether the registry is well formed: no name is held twice.
    pub closed spec fn wf(&self) -> bool {
        keys_unique(self.styles@)
    }

    /// The mapping from rule name to style model.
    pub closed spec fn map_view(&self) -> Map<Seq<char>, StyleModel> {
        pairs_map(self.styles@)
    }

    /// Creates a new registry with an empty style map.
    pub fn new() -> (r: Self)
        ensures
            r.wf(),
            r.map_view() == Map::<Seq<char>, StyleModel>::empty(),
    {
        Termio { styles: Vec::new() }
    }

    /// The position of an entry with this name, if one is held.
    fn find_key(&self, name: &Vec<char>) -> (r: Option<usize>)
        ensures
            r is Some ==> 0 <= r->0 < self.styles@.len() && self.styles@[r->0 as int].0@
                == name@,
            r is None ==> forall|j: int|
                0 <= j < self.styles@.len() ==> self.styles@[j].0@ != name@,
    {
        let n: usize = self.styles.len();
        let mut i: usize = 0;
        while i < n
            invariant
                i <= n,
                n == self.styles@.len(),
                forall|j: int| 0 <= j < i ==> self.styles@[j].0@ != name@,
            decreases n - i,
        {
            let key_chars = str_to_chars(self.styles[i].0.as_str());
            if chars_eq(&key_chars, name) {
                return Some(i);
            }
            i = i + 1;
        }
        None
    }

    /// Retrieves a style by name, returning `None` if not found.
    pub fn get_style(&self, name: &str) -> (r: Option<Style>)
        requires
            self.wf(),
        ensures
            r is Some <==> self.map_view().contains_key(name@),
            r is Some ==> r->0@ == self.map_view()[name@],
    {
        let name_chars = str_to_chars(name);
        proof {
            lemma_pairs_map_contains(self.styles@, name@);
        }
        match self.find_key(&name_chars) {
            Some(i) => {
                proof {
                    lemma_pairs_map_at(self.styles@, i as int);
                }
                Some(self.styles[i].1.clone())
            },
            None => None,
        }
    }

    /// Inserts a style under a name, overwriting any existing entry.
    pub fn add_style(&mut self, name: &str, style: Style)
        requires
            old(self).wf(),
        ensures
            final(self).wf(),
            final(self).map_view() == old(self).map_view().insert(name@, style@),
    {
        let name_chars = str_to_chars(name);
        match self.find_key(&name_chars) {
            Some(i) => {
                let key = chars_to_string(&name_chars);
                self.styles[i] = (key, style);
                proof {
                    lemma_update_key(old(self).styles@, self.styles@, i as int, name@, style@);
                }
            },
            None => {
                let key = chars_to_string(&name_chars);
                self.styles.push((key, style));
                proof {
                    assert(self.styles@.drop_last() =~= old(self).styles@);
                    assert(self.styles@.last().0@ == name@);
                    assert(keys_unique(self.styles@)) by {
                        assert(forall|j: int|
                            0 <= j < old(self).styles@.len() ==> self.styles@[j]
                                == old(self).styles@[j]);
                    }
                }
            },
        }
    }
}

/// Replacing the entry at a held name leaves the same mapping as a map
/// insert at that name.
proof fn lemma_update_key(
    ps: Seq<(String, Style)>,
    qs: Seq<(String, Style)>,
    i: int,
    k: Seq<char>,
    v: StyleModel,
)
    requires
        keys_unique(ps),
        0 <= i < ps.len(),
        ps[i].0@ == k,
        qs.len() == ps.len(),
        forall|j: int| 0 <= j < ps.len() && j != i ==> qs[j] == ps[j],
        qs[i].0@ == k,
        qs[i].1@ == v,
    ensures
        keys_unique(qs),
        pairs_map(qs) == pairs_map(ps).insert(k, v),
    decreases ps.len(),
{
    assert(keys_unique(qs)) by {
        assert(forall|a: int| 0 <= a < qs.len() ==> qs[a].0@ == ps[a].0@);
    }
    if i == ps.len() - 1 {
        assert(qs.drop_last() =~= ps.drop_last());
        assert(pairs_map(qs) =~= pairs_map(ps).insert(k, v));
    } else {
        assert(keys_unique(ps.drop_last()) && keys_unique(qs.drop_last())) by {
            assert(forall|a: int, b: int|
                0 <= a < b < ps.len() - 1 ==> ps.drop_last()[a].0@ == ps[a].0@
                    && ps.drop_last()[b].0@ == ps[b].0@ && qs.drop_last()[a].0@ == qs[a].0@
                    && qs.drop_last()[b].0@ == qs[b].0@);
        }
        assert(forall|j: int|
            0 <= j < ps.len() - 1 && j != i ==> qs.drop_last()[j] == ps.drop_last()[j]);
        assert(qs.drop_last()[i] == qs[i] && ps.drop_last()[i] == ps[i]);
        lemma_update_key(ps.drop_last(), qs.drop_last(), i, k, v);
        assert(qs.last() == ps.last());
        assert(ps.last().0@ != k);
        assert(pairs_map(qs) =~= pairs_map(ps).insert(k, v));
    }
}

/// The decorations named by a token list; every token must name one.
pub open spec fn decos_of(tokens: Seq<Seq<char>>) -> Option<Seq<Decoration>>
    decreases tokens.len(),
{
    if tokens.len() == 0 {
        Some(Seq::empty())
    } else {
        match decos_of(tokens.drop_last()) {
            Some(ds) => match deco_token_spec(tokens.last()) {
                Some(d) => Some(ds.push(d)),
                None => None,
            },
            None => None,
        }
    }
}

proof fn lemma_decos_none(tokens: Seq<Seq<char>>, i: int)
    requires
        0 <= i <= tokens.len(),
        decos_of(tokens.subrange(0, i)) is None,
    ensures
        decos_of(tokens) is None,
    decreases tokens.len() - i,
{
    if i < tokens.len() {
        assert(tokens.subrange(0, i + 1).drop_last() =~= tokens.subrange(0, i));
        lemma_decos_none(tokens, i + 1);
    } else {
        assert(tokens.subrange(0, tokens.len() as int) =~= tokens);
    }
}

/// A `color` declaration applied to a style.
pub open spec fn apply_fg_value(st: StyleModel, value: Seq<char>) -> Option<StyleModel> {
    match color_token_spec(value) {
        Some(c) => Some(StyleModel { fg: Some(c), ..st }),
        None => None,
    }
}

/// A `background` declaration applied to a style.
pub open spec fn apply_bg_value(st: StyleModel, value: Seq<char>) -> Option<StyleModel> {
    match color_token_spec(value) {
        Some(c) => Some(StyleModel { bg: Some(c), ..st }),
        None => None,
    }
}

/// A `border-color` declaration applied to a style.
pub open spec fn apply_border_color_value(st: StyleModel, value: Seq<char>) -> Option<
    StyleModel,
> {
    match color_token_spec(value) {
        Some(c) => Some(StyleModel { border_color: Some(c), ..st }),
        None => None,
    }
}

/// A `border-style` declaration applied to a style.
pub open spec fn apply_border_style_value(st: StyleModel, value: Seq<char>) -> Option<
    StyleModel,
> {
    match border_token_spec(value) {
        Some(b) => Some(StyleModel { border_style: Some(b), ..st }),
        None => None,
    }
}

/// A `padding` shorthand applied to a style: one value sets every side and
/// the uniform field; two set top and bottom from the first and left and
/// right from the second; four set top, right, bottom, left in that order.
pub open spec fn apply_padding_value(st: StyleModel, value: Seq<char>) -> Option<StyleModel> {
    let vs = split_ws_spec(value);
    if vs.len() == 1 {
        match parse_u8_spec(vs[0]) {
            Some(p) => Some(StyleModel {
                padding: Some(p),
                padding_top: Some(p),
                padding_bottom: Some(p),
                padding_left: Some(p),
                padding_right: Some(p),
                ..st
            }),
            None => None,
        }
    } else if vs.len() == 2 {
        let pv = parse_u8_spec(vs[0]);
        let ph = parse_u8_spec(vs[1]);
        if pv is Some && ph is Some {
            Some(StyleModel {
                padding_top: Some(pv->0),
                padding_bottom: Some(pv->0),
                padding_left: Some(ph->0),
                padding_right: Some(ph->0),
                ..st
            })
        } else {
            None
        }
    } else if vs.len() == 4 {
        let pt = parse_u8_spec(vs[0]);
        let pr = parse_u8_spec(vs[1]);
        let pb = parse_u8_spec(vs[2]);
        let pl = parse_u8_spec(vs[3]);
        if pt is Some && pr is Some && pb is Some && pl is Some {
            Some(StyleModel {
                padding_top: Some(pt->0),
                padding_right: Some(pr->0),
                padding_bottom: Some(pb->0),
                padding_left: Some(pl->0),
                ..st
            })
        } else {
            None
        }
    } else {
        None
    }
}

/// A `margin` shorthand applied to a style, under the same conventions as
/// the padding shorthand.
pub open spec fn apply_margin_value(st: StyleModel, value: Seq<char>) -> Option<StyleModel> {
    let vs = split_ws_spec(value);
    if vs.len() == 1 {
        match parse_u8_spec(vs[0]) {
            Some(p) => Some(StyleModel {
                margin: Some(p),
                margin_top: Some(p),
                margin_bottom: Some(p),
                margin_left: Some(p),
                margin_right: Some(p),
                ..st
            }),
            None => None,
        }
    } else if vs.len() == 2 {
        let pv = parse_u8_spec(vs[0]);
        let ph = parse_u8_spec(vs[1]);
        if pv is Some && ph is Some {
            Some(StyleModel {
                margin_top: Some(pv->0),
                margin_bottom: Some(pv->0),
                margin_left: Some(ph->0),
                margin_right: Some(ph->0),
                ..st
            })
        } else {
            None
        }
    } else if vs.len() == 4 {
        let pt = parse_u8_spec(vs[0]);
        let pr = parse_u8_spec(vs[1]);
        let pb = parse_u8_spec(vs[2]);
        let pl = parse_u8_spec(vs[3]);
        if pt is Some && pr is Some && pb is Some && pl is Some {
            Some(StyleModel {
                margin_top: Some(pt->0),
                margin_right: Some(pr->0),
                margin_bottom: Some(pb->0),
                margin_left: Some(pl->0),
                ..st
            })
        } else {
            None
        }
    } else {
        None
    }
}

/// A `border` shorthand applied to a style: a border keyword, one space,
/// then a color token. A value without a space is a syntax error.
pub open spec fn apply_border_shorthand(st: StyleModel, value: Seq<char>) -> Option<StyleModel> {
    let k = first_idx(value, ' ');
    if k == value.len() {
        None
    } else {
        let btok = value.subrange(0, k);
        let ctok = value.subrange(k + 1, value.len() as int);
        let b = border_token_spec(btok);
        let c = color_token_spec(ctok);
        if b is Some && c is Some {
            Some(StyleModel { border_style: Some(b->0), border_color: Some(c->0), ..st })
        } else {
            None
        }
    }
}

/// A single `property: value` declaration line applied to a style: exactly
/// one colon, the property trimmed, the value trimmed and stripped of
/// trailing semicolons.
pub open spec fn apply_decl(st: StyleModel, line: Seq<char>) -> Option<StyleModel> {
    let parts = split_char_spec(line, ':');
    if parts.len() != 2 {
        None
    } else {
        apply_property(st, trim_spec(parts[0]), strip_semis_spec(trim_spec(parts[1])))
    }
}

/// Dispatch of a declaration by property name.
pub open spec fn apply_property(st: StyleModel, prop: Seq<char>, value: Seq<char>) -> Option<
    StyleModel,
> {
    if prop == "color"@ {
        apply_fg_value(st, value)
    } else if prop == "background"@ {
        apply_bg_value(st, value)
    } else if prop == "decoration"@ {
        match decos_of(split_ws_spec(value)) {
            Some(ds) => Some(StyleModel { decoration: Some(ds), ..st }),
            None => None,
        }
    } else if prop == "padding"@ {
        apply_padding_value(st, value)
    } else if prop == "padding-top"@ {
        match parse_u8_spec(value) {
            Some(p) => Some(StyleModel { padding_top: Some(p), ..st }),
            None => None,
        }
    } else if prop == "padding-bottom"@ {
        match parse_u8_spec(value) {
            Some(p) => Some(StyleModel { padding_bottom: Some(p), ..st }),
            None => None,
        }
    } else if prop == "padding-left"@ {
        match parse_u8_spec(value) {
            Some(p) => Some(StyleModel { padding_left: Some(p), ..st }),
            None => None,
        }
    } else if prop == "padding-right"@ {
        match parse_u8_spec(value) {
            Some(p) => Some(StyleModel { padding_right: Some(p), ..st }),
            None => None,
        }
    } else if prop == "margin"@ {
        apply_margin_value(st, value)
    } else if prop == "margin-top"@ {
        match parse_u8_spec(value) {
            Some(p) => Some(StyleModel { margin_top: Some(p), ..st }),
            None => None,
        }
    } else if prop == "margin-bottom"@ {
        match parse_u8_spec(value) {
            Some(p) => Some(StyleModel { margin_bottom: Some(p), ..st }),
            None => None,
        }
    } else if prop == "margin-left"@ {
        match parse_u8_spec(value) {
            Some(p) => Some(StyleModel { margin_left: Some(p), ..st }),
            None => None,
        }
    } else if prop == "margin-right"@ {
        match parse_u8_spec(value) {
            Some(p) => Some(StyleModel { margin_right: Some(p), ..st }),
            None => None,
        }
    } else if prop == "border-color"@ {
        apply_border_color_value(st, value)
    } else if prop == "border-style"@ {
        apply_border_style_value(st, value)
    } else if prop == "border"@ {
        apply_border_shorthand(st, value)
    } else {
        None
    }
}

/// The name between the first pair of double quotes of a block header.
pub open spec fn quoted_name(line: Seq<char>) -> Option<Seq<char>> {
    let ps = split_char_spec(line, '"');
    if ps.len() >= 2 {
        Some(ps[1])
    } else {
        None
    }
}

/// The state a parse ends in: the final mapping, and the error if one
/// stopped it. Blocks committed before an error stay committed.
pub struct ParseResultModel {
    pub map: Map<Seq<char>, StyleModel>,
    pub err: Option<ParseErrorModel>,
}

/// The line-by-line parse from line `i` on, with registry map `m` and an
/// optionally pending open block `cur`. Blank and comment lines are
/// skipped; a block-open header commits any pending block and opens a new
/// one; inside a block, a lone closing brace commits and any other line is
/// a declaration; a line outside any block is ignored; the end of input
/// commits a still-open block. A commit of a name the map holds is a
/// duplicate error.
pub open spec fn parse_lines(
    m: Map<Seq<char>, StyleModel>,
    lines: Seq<Seq<char>>,
    i: int,
    cur: Option<(Seq<char>, StyleModel)>,
) -> ParseResultModel
    decreases lines.len() - i,
{
    if i < 0 || i >= lines.len() {
        match cur {
            Option::None => ParseResultModel { map: m, err: Option::None },
            Option::Some(p) => {
                if m.contains_key(p.0) {
                    ParseResultModel {
                        map: m,
                        err: Some(ParseErrorModel::DuplicateElement(p.0)),
                    }
                } else {
                    ParseResultModel { map: m.insert(p.0, p.1), err: Option::None }
                }
            },
        }
    } else {
        let line = trim_spec(lines[i]);
        if line.len() == 0 || starts_with_spec(line, "//"@) {
            parse_lines(m, lines, i + 1, cur)
        } else if starts_with_spec(line, "@element"@) {
            match cur {
                Option::Some(p) => {
                    if m.contains_key(p.0) {
                        ParseResultModel {
                            map: m,
                            err: Some(ParseErrorModel::DuplicateElement(p.0)),
                        }
                    } else {
                        let m1 = m.insert(p.0, p.1);
                        match quoted_name(line) {
                            Some(nm) => parse_lines(
                                m1,
                                lines,
                                i + 1,
                                Some((nm, empty_style_model())),
                            ),
                            None => ParseResultModel {
                                map: m1,
                                err: Some(ParseErrorModel::InvalidSyntax),
                            },
                        }
                    }
                },
                Option::None => match quoted_name(line) {
                    Some(nm) => parse_lines(m, lines, i + 1, Some((nm, empty_style_model()))),
                    None => ParseResultModel {
                        map: m,
                        err: Some(ParseErrorModel::InvalidSyntax),
                    },
                },
            }
        } else if cur is Some {
            if line == "}"@ {
                let p = cur->0;
                if m.contains_key(p.0) {
                    ParseResultModel {
                        map: m,
                        err: Some(ParseErrorModel::DuplicateElement(p.0)),
                    }
                } else {
                    parse_lines(m.insert(p.0, p.1), lines, i + 1, Option::None)
                }
            } else {
                let p = cur->0;
                match apply_decl(p.1, line) {
                    Some(st2) => parse_lines(m, lines, i + 1, Some((p.0, st2))),
                    None => ParseResultModel {
                        map: m,
                        err: Some(ParseErrorModel::InvalidSyntax),
                    },
                }
            }
        } else {
            parse_lines(m, lines, i + 1, cur)
        }
    }
}

/// The model of the pending block held by the executable parser.
pub open spec fn cur_model(c: Option<(Vec<char>, Style)>) -> Option<(Seq<char>, StyleModel)> {
    match c {
        Some(p) => Some((p.0@, p.1@)),
        None => Option::None,
    }
}

impl Termio {
    /// Commits a block into the table: an error if the name is held, an
    /// insertion otherwise.
    fn commit_block(&mut self, name: Vec<char>, style: Style) -> (r: Result<(), ParseError>)
        requires
            old(self).wf(),
        ensures
            final(self).wf(),
            r is Ok ==> !old(self).map_view().contains_key(name@) && final(self).map_view()
                == old(self).map_view().insert(name@, style@),
            r is Err ==> old(self).map_view().contains_key(name@) && final(self).map_view()
                == old(self).map_view() && r->Err_0@ == ParseErrorModel::DuplicateElement(
                name@,
            ),
    {
        proof {
            lemma_pairs_map_contains(self.styles@, name@);
        }
        match self.find_key(&name) {
            Some(_) => Err(ParseError::DuplicateElement(chars_to_string(&name))),
            None => {
                let key = chars_to_string(&name);
                self.styles.push((key, style));
                proof {
                    assert(self.styles@.drop_last() =~= old(self).styles@);
                    assert(self.styles@.last().0@ == name@);
                    assert(keys_unique(self.styles@)) by {
                        assert(forall|j: int|
                            0 <= j < old(self).styles@.len() ==> self.styles@[j]
                                == old(self).styles@[j]);
                    }
                }
                Ok(())
            },
        }
    }

    /// Parses a decoration list: space-separated keywords.
    fn parse_decoration(&self, value: &Vec<char>) -> (r: Result<Vec<Decoration>, ParseError>)
        ensures
            r is Ok <==> decos_of(split_ws_spec(value@)) is Some,
            r is Ok ==> r->Ok_0@ == decos_of(split_ws_spec(value@))->0,
            r is Err ==> r->Err_0@ == ParseErrorModel::InvalidSyntax,
    {
        let toks = split_ws(value);
        let ghost tv = split_ws_spec(value@);
        let n: usize = toks.len();
        let mut out: Vec<Decoration> = Vec::new();
        let mut i: usize = 0;
        while i < n
            invariant
                i <= n,
                n == toks@.len(),
                views_of(toks@) == tv,
                tv == split_ws_spec(value@),
                decos_of(tv.subrange(0, i as int)) == Some(out@),
            decreases n - i,
        {
            proof {
                assert(toks@[i as int]@ == tv[i as int]);
            }
            match Decoration::from_chars(&toks[i]) {
                Some(d) => {
                    out.push(d);
                    proof {
                        assert(tv.subrange(0, (i + 1) as int).drop_last() =~= tv.subrange(
                            0,
                            i as int,
                        ));
                        assert(tv.subrange(0, (i + 1) as int).last() == tv[i as int]);
                    }
                },
                None => {
                    proof {
                        assert(tv.subrange(0, (i + 1) as int).drop_last() =~= tv.subrange(
                            0,
                            i as int,
                        ));
                        assert(tv.subrange(0, (i + 1) as int).last() == tv[i as int]);
                        assert(decos_of(tv.subrange(0, (i + 1) as int)) is None);
                        lemma_decos_none(tv, (i + 1) as int);
                    }
                    let mut msg = "Unknown decoration: ".to_owned();
                    msg.append(chars_to_string(&toks[i]).as_str());
                    return Err(ParseError::InvalidSyntax(msg));
                },
            }
            i = i + 1;
        }
        proof {
            assert(tv.subrange(0, n as int) =~= tv);
        }
        Ok(out)
    }

    /// Parses a border style keyword.
    fn parse_border_style(&self, value: &Vec<char>) -> (r: Result<BorderStyle, ParseError>)
        ensures
            r is Ok <==> border_token_spec(value@) is Some,
            r is Ok ==> r->Ok_0 == border_token_spec(value@)->0,
            r is Err ==> r->Err_0@ == ParseErrorModel::InvalidSyntax,
    {
        match BorderStyle::from_chars(value) {
            Some(b) => Ok(b),
            None => {
                let mut msg = "Unknown border style: ".to_owned();
                msg.append(chars_to_string(value).as_str());
                Err(ParseError::InvalidSyntax(msg))
            },
        }
    }

    /// Applies one declaration line to a style record.
    fn apply_decl_chars(&self, st: Style, line: &Vec<char>) -> (r: Result<Style, ParseError>)
        ensures
            r is Ok <==> apply_decl(st@, line@) is Some,
            r is Ok ==> r->Ok_0@ == apply_decl(st@, line@)->0,
            r is Err ==> r->Err_0@ == ParseErrorModel::InvalidSyntax,
    {
        let parts = split_char(line, ':');
        if parts.len() != 2 {
            let mut msg = "Invalid property: ".to_owned();
            msg.append(chars_to_string(line).as_str());
            return Err(ParseError::InvalidSyntax(msg));
        }
        let prop = trim_chars(&parts[0]);
        let trimmed = trim_chars(&parts[1]);
        let value = strip_semis(&trimmed);
        proof {
            assert(parts@[0]@ == split_char_spec(line@, ':')[0]);
            assert(parts@[1]@ == split_char_spec(line@, ':')[1]);
        }
        let mut s = st;
        if chars_eq(&prop, &str_to_chars("color")) {
            match Color::from_chars(&value) {
                Some(c) => {
                    s.fg = Some(c);
                },
                None => {
                    let mut msg = "Unknown color: ".to_owned();
                    msg.append(chars_to_string(&value).as_str());
                    return Err(ParseError::InvalidSyntax(msg));
                },
            }
        } else if chars_eq(&prop, &str_to_chars("background")) {
            match Color::from_chars(&value) {
                Some(c) => {
                    s.bg = Some(c);
                },
                None => {
                    let mut msg = "Unknown color: ".to_owned();
                    msg.append(chars_to_string(&value).as_str());
                    return Err(ParseError::InvalidSyntax(msg));
                },
            }
        } else if chars_eq(&prop, &str_to_chars("decoration")) {
            match self.parse_decoration(&value) {
                Ok(ds) => {
                    s.decoration = Some(ds);
                },
                Err(e) => {
                    return Err(e);
                },
            }
        } else if chars_eq(&prop, &str_to_chars("padding")) {
            let vs = split_ws(&value);
            proof {
                assert(views_of(vs@) == split_ws_spec(value@));
            }
            if vs.len() == 1 {
                proof {
                    assert(vs@[0]@ == split_ws_spec(value@)[0]);
                }
                match parse_u8(&vs[0]) {
                    Some(p) => {
                        s.padding = Some(p);
                        s.padding_top = Some(p);
                        s.padding_bottom = Some(p);
                        s.padding_left = Some(p);
                        s.padding_right = Some(p);
                    },
                    None => {
                        let mut msg = "Invalid padding value: ".to_owned();
                        msg.append(chars_to_string(&value).as_str());
                        return Err(ParseError::InvalidSyntax(msg));
                    },
                }
            } else if vs.len() == 2 {
                proof {
                    assert(vs@[0]@ == split_ws_spec(value@)[0]);
                    assert(vs@[1]@ == split_ws_spec(value@)[1]);
                }
                let pv = parse_u8(&vs[0]);
                let ph = parse_u8(&vs[1]);
                if pv.is_some() && ph.is_some() {
                    let v = pv.unwrap();
                    let h = ph.unwrap();
                    s.padding_top = Some(v);
                    s.padding_bottom = Some(v);
                    s.padding_left = Some(h);
                    s.padding_right = Some(h);
                } else {
                    let mut msg = "Invalid padding value: ".to_owned();
                    msg.append(chars_to_string(&value).as_str());
                    return Err(ParseError::InvalidSyntax(msg));
                }
            } else if vs.len() == 4 {
                proof {
                    assert(vs@[0]@ == split_ws_spec(value@)[0]);
                    assert(vs@[1]@ == split_ws_spec(value@)[1]);
                    assert(vs@[2]@ == split_ws_spec(value@)[2]);
                    assert(vs@[3]@ == split_ws_spec(value@)[3]);
                }
                let pt = parse_u8(&vs[0]);
                let pr = parse_u8(&vs[1]);
                let pb = parse_u8(&vs[2]);
                let pl = parse_u8(&vs[3]);
                if pt.is_some() && pr.is_some() && pb.is_some() && pl.is_some() {
                    s.padding_top = Some(pt.unwrap());
                    s.padding_right = Some(pr.unwrap());
                    s.padding_bottom = Some(pb.unwrap());
                    s.padding_left = Some(pl.unwrap());
                } else {
                    let mut msg = "Invalid padding value: ".to_owned();
                    msg.append(chars_to_string(&value).as_str());
                    return Err(ParseError::InvalidSyntax(msg));
                }
            } else {
                return Err(ParseError::InvalidSyntax(
                    "Invalid padding format. Use 1, 2, or 4 values".to_owned(),
                ));
            }
        } else if chars_eq(&prop, &str_to_chars("padding-top")) {
            match parse_u8(&value) {
                Some(p) => {
                    s.padding_top = Some(p);
                },
                None => {
                    let mut msg = "Invalid padding-top value: ".to_owned();
                    msg.append(chars_to_string(&value).as_str());
                    return Err(ParseError::InvalidSyntax(msg));
                },
            }
        } else if chars_eq(&prop, &str_to_chars("padding-bottom")) {
            match parse_u8(&value) {
                Some(p) => {
                    s.padding_bottom = Some(p);
                },
                None => {
                    let mut msg = "Invalid padding-bottom value: ".to_owned();
                    msg.append(chars_to_string(&value).as_str());
                    return Err(ParseError::InvalidSyntax(msg));
                },
            }
        } else if chars_eq(&prop, &str_to_chars("padding-left")) {
            match parse_u8(&value) {
                Some(p) => {
                    s.padding_left = Some(p);
                },
                None => {
                    let mut msg = "Invalid padding-left value: ".to_owned();
                    msg.append(chars_to_string(&value).as_str());
                    return Err(ParseError::InvalidSyntax(msg));
                },
            }
        } else if chars_eq(&prop, &str_to_chars("padding-right")) {
            match parse_u8(&value) {
                Some(p) => {
                    s.padding_right = Some(p);
                },
                None => {
                    let mut msg = "Invalid padding-right value: ".to_owned();
                    msg.append(chars_to_string(&value).as_str());
                    return Err(ParseError::InvalidSyntax(msg));
                },
            }
        } else if chars_eq(&prop, &str_to_chars("margin")) {
            let vs = split_ws(&value);
            proof {
                assert(views_of(vs@) == split_ws_spec(value@));
            }
            if vs.len() == 1 {
                proof {
                    assert(vs@[0]@ == split_ws_spec(value@)[0]);
                }
                match parse_u8(&vs[0]) {
                    Some(p) => {
                        s.margin = Some(p);
                        s.margin_top = Some(p);
                        s.margin_bottom = Some(p);
                        s.margin_left = Some(p);
                        s.margin_right = Some(p);
                    },
                    None => {
                        let mut msg = "Invalid margin value: ".to_owned();
                        msg.append(chars_to_string(&value).as_str());
                        return Err(ParseError::InvalidSyntax(msg));
                    },
                }
            } else if vs.len() == 2 {
                proof {
                    assert(vs@[0]@ == split_ws_spec(value@)[0]);
                    assert(vs@[1]@ == split_ws_spec(value@)[1]);
                }
                let pv = parse_u8(&vs[0]);
                let ph = parse_u8(&vs[1]);
                if pv.is_some() && ph.is_some() {
                    let v = pv.unwrap();
                    let h = ph.unwrap();
                    s.margin_top = Some(v);
                    s.margin_bottom = Some(v);
                    s.margin_left = Some(h);
                    s.margin_right = Some(h);
                } else {
                    let mut msg = "Invalid margin value: ".to_owned();
                    msg.append(chars_to_string(&value).as_str());
                    return Err(ParseError::InvalidSyntax(msg));
                }
            } else if vs.len() == 4 {
                proof {
                    assert(vs@[0]@ == split_ws_spec(value@)[0]);
                    assert(vs@[1]@ == split_ws_spec(value@)[1]);
                    assert(vs@[2]@ == split_ws_spec(value@)[2]);
                    assert(vs@[3]@ == split_ws_spec(value@)[3]);
                }
                let pt = parse_u8(&vs[0]);
                let pr = parse_u8(&vs[1]);
                let pb = parse_u8(&vs[2]);
                let pl = parse_u8(&vs[3]);
                if pt.is_some() && pr.is_some() && pb.is_some() && pl.is_some() {
                    s.margin_top = Some(pt.unwrap());
                    s.margin_right = Some(pr.unwrap());
                    s.margin_bottom = Some(pb.unwrap());
                    s.margin_left = Some(pl.unwrap());
                } else {
                    let mut msg = "Invalid margin value: ".to_owned();
                    msg.append(chars_to_string(&value).as_str());
                    return Err(ParseError::InvalidSyntax(msg));
                }
            } else {
                return Err(ParseError::InvalidSyntax(
                    "Invalid margin format. Use 1, 2, or 4 values".to_owned(),
                ));
            }
        } else if chars_eq(&prop, &str_to_chars("margin-top")) {
            match parse_u8(&value) {
                Some(p) => {
                    s.margin_top = Some(p);
                },
                None => {
                    let mut msg = "Invalid margin-top value: ".to_owned();
                    msg.append(chars_to_string(&value).as_str());
                    return Err(ParseError::InvalidSyntax(msg));
                },
            }
        } else if chars_eq(&prop, &str_to_chars("margin-bottom")) {
            match parse_u8(&value) {
                Some(p) => {
                    s.margin_bottom = Some(p);
                },
                None => {
                    let mut msg = "Invalid margin-bottom value: ".to_owned();
                    msg.append(chars_to_string(&value).as_str());
                    return Err(ParseError::InvalidSyntax(msg));
                },
            }
        } else if chars_eq(&prop, &str_to_chars("margin-left")) {
            match parse_u8(&value) {
                Some(p) => {
                    s.margin_left = Some(p);
                },
                None => {
                    let mut msg = "Invalid margin-left value: ".to_owned();
                    msg.append(chars_to_string(&value).as_str());
                    return Err(ParseError::InvalidSyntax(msg));
                },
            }
        } else if chars_eq(&prop, &str_to_chars("margin-right")) {
            match parse_u8(&value) {
                Some(p) => {
                    s.margin_right = Some(p);
                },
                None => {
                    let mut msg = "Invalid margin-right value: ".to_owned();
                    msg.append(chars_to_string(&value).as_str());
                    return Err(ParseError::InvalidSyntax(msg));
                },
            }
        } else if chars_eq(&prop, &str_to_chars("border-color")) {
            match Color::from_chars(&value) {
                Some(c) => {
                    s.border_color = Some(c);
                },
                None => {
                    let mut msg = "Unknown color: ".to_owned();
                    msg.append(chars_to_string(&value).as_str());
                    return Err(ParseError::InvalidSyntax(msg));
                },
            }
        } else if chars_eq(&prop, &str_to_chars("border-style")) {
            match self.parse_border_style(&value) {
                Ok(b) => {
                    s.border_style = Some(b);
                },
                Err(e) => {
                    return Err(e);
                },
            }
        } else if chars_eq(&prop, &str_to_chars("border")) {
            let vn: usize = value.len();
            let mut k: usize = 0;
            while k < vn && value[k] != ' '
                invariant
                    k <= vn,
                    vn == value@.len(),
                    forall|j: int| 0 <= j < k ==> value@[j] != ' ',
                decreases vn - k,
            {
                k = k + 1;
            }
            proof {
                crate::chars::lemma_first_idx_is(value@, ' ', k as int);
            }
            if k == vn {
                return Err(ParseError::InvalidSyntax(
                    "Invalid border format. Use <style> <color>".to_owned(),
                ));
            }
            let btok = subvec(&value, 0, k);
            let ctok = subvec(&value, k + 1, vn);
            match self.parse_border_style(&btok) {
                Ok(b) => {
                    s.border_style = Some(b);
                },
                Err(e) => {
                    return Err(e);
                },
            }
            match Color::from_chars(&ctok) {
                Some(c) => {
                    s.border_color = Some(c);
                },
                None => {
                    let mut msg = "Unknown color: ".to_owned();
                    msg.append(chars_to_string(&ctok).as_str());
                    return Err(ParseError::InvalidSyntax(msg));
                },
            }
        } else {
            let mut msg = "Unknown property: ".to_owned();
            msg.append(chars_to_string(&prop).as_str());
            return Err(ParseError::InvalidSyntax(msg));
        }
        Ok(s)
    }

    /// Parses declaration source and populates the style map. Each block
    /// is committed as it closes, so blocks completed before an error stay
    /// in the registry; a name already held is a duplicate error.
    #[verifier::rlimit(100)]
    pub fn parse(&mut self, content: &str) -> (r: Result<(), ParseError>)
        requires
            old(self).wf(),
        ensures
            final(self).wf(),
            ({
                let res = parse_lines(old(self).map_view(), lines_spec(content@), 0, Option::None);
                final(self).map_view() == res.map && (r is Ok ==> res.err is None) && (
                r is Err ==> res.err is Some && r->Err_0@ == res.err->0)
            }),
    {
        let chars = str_to_chars(content);
        let lines = split_lines(&chars);
        let n: usize = lines.len();
        let ghost lv = lines_spec(content@);
        let ghost m0 = old(self).map_view();
        let mut cur: Option<(Vec<char>, Style)> = None;
        let mut i: usize = 0;
        while i < n
            invariant
                i <= n,
                n == lines@.len(),
                views_of(lines@) == lv,
                lv == lines_spec(content@),
                m0 == old(self).map_view(),
                self.wf(),
                parse_lines(m0, lv, 0, Option::None) == parse_lines(
                    self.map_view(),
                    lv,
                    i as int,
                    cur_model(cur),
                ),
            decreases n - i,
        {
            let ghost m_in = self.map_view();
            let ghost cm_in = cur_model(cur);
            proof {
                assert(lines@[i as int]@ == lv[i as int]);
            }
            let line = trim_chars(&lines[i]);
            if line.len() == 0 || starts_with(&line, &str_to_chars("//")) {
                // skipped
            } else if starts_with(&line, &str_to_chars("@element")) {
                let prev = cur;
                cur = None;
                match prev {
                    Some(p) => {
                        let (nm, st) = p;
                        match self.commit_block(nm, st) {
                            Ok(()) => {},
                            Err(e) => {
                                return Err(e);
                            },
                        }
                    },
                    None => {},
                }
                let qparts = split_char(&line, '"');
                if qparts.len() >= 2 {
                    proof {
                        assert(qparts@[1]@ == split_char_spec(line@, '"')[1]);
                    }
                    let nm = subvec(&qparts[1], 0, qparts[1].len());
                    proof {
                        assert(qparts@[1]@.subrange(0, qparts@[1]@.len() as int)
                            =~= qparts@[1]@);
                    }
                    cur = Some((nm, Style::new()));
                } else {
                    return Err(ParseError::InvalidSyntax("Missing element name".to_owned()));
                }
            } else if cur.is_some() {
                if chars_eq(&line, &str_to_chars("}")) {
                    let prev = cur;
                    cur = None;
                    match prev {
                        Some(p) => {
                            let (nm, st) = p;
                            match self.commit_block(nm, st) {
                                Ok(()) => {},
                                Err(e) => {
                                    return Err(e);
                                },
                            }
                        },
                        None => {},
                    }
                } else {
                    let prev = cur;
                    cur = None;
                    match prev {
                        Some(p) => {
                            let (nm, st) = p;
                            match self.apply_decl_chars(st, &line) {
                                Ok(st2) => {
                                    cur = Some((nm, st2));
                                },
                                Err(e) => {
                                    return Err(e);
                                },
                            }
                        },
                        None => {},
                    }
                }
            } else {
                // a line outside any block is ignored
            }
            proof {
                assert(parse_lines(m_in, lv, i as int, cm_in) == parse_lines(
                    self.map_view(),
                    lv,
                    i + 1,
                    cur_model(cur),
                ));
            }
            i = i + 1;
        }
        let prev = cur;
        match prev {
            Some(p) => {
                let (nm, st) = p;
                match self.commit_block(nm, st) {
                    Ok(()) => Ok(()),
                    Err(e) => Err(e),
                }
            },
            None => Ok(()),
        }
    }
}

/// Whether every entry of `m` stands unchanged in `r`.
pub open spec fn preserves_entries(m: Map<Seq<char>, StyleModel>, r: Map<Seq<char>, StyleModel>) -> bool {
    forall|k: Seq<char>|
        #[trigger] m.contains_key(k) ==> r.contains_key(k) && r[k] == m[k]
}

proof fn lemma_preserves_insert_fresh(m: Map<Seq<char>, StyleModel>, k: Seq<char>, v: StyleModel)
    requires
        !m.contains_key(k),
    ensures
        preserves_entries(m, m.insert(k, v)),
{
}

proof fn lemma_preserves_trans(
    a: Map<Seq<char>, StyleModel>,
    b: Map<Seq<char>, StyleModel>,
    c: Map<Seq<char>, StyleModel>,
)
    requires
        preserves_entries(a, b),
        preserves_entries(b, c),
    ensures
        preserves_entries(a, c),
{
    assert forall|k: Seq<char>| #[trigger] a.contains_key(k) implies c.contains_key(k) && c[k]
        == a[k] by {
        assert(b.contains_key(k) && b[k] == a[k]);
    }
}

/// Parsing never replaces an entry the registry already holds: whatever
/// the outcome, every previously held name keeps its style record.
pub proof fn lemma_parse_preserves_entries(
    m: Map<Seq<char>, StyleModel>,
    lines: Seq<Seq<char>>,
    i: int,
    cur: Option<(Seq<char>, StyleModel)>,
)
    ensures
        preserves_entries(m, parse_lines(m, lines, i, cur).map),
    decreases lines.len() - i,
{
    if i < 0 || i >= lines.len() {
        match cur {
            Option::Some(p) => {
                if !m.contains_key(p.0) {
                    lemma_preserves_insert_fresh(m, p.0, p.1);
                }
            },
            Option::None => {},
        }
    } else {
        let line = trim_spec(lines[i]);
        if line.len() == 0 || starts_with_spec(line, "//"@) {
            lemma_parse_preserves_entries(m, lines, i + 1, cur);
        } else if starts_with_spec(line, "@element"@) {
            match cur {
                Option::Some(p) => {
                    if !m.contains_key(p.0) {
                        let m1 = m.insert(p.0, p.1);
                        lemma_preserves_insert_fresh(m, p.0, p.1);
                        match quoted_name(line) {
                            Some(nm) => {
                                lemma_parse_preserves_entries(
                                    m1,
                                    lines,
                                    i + 1,
                                    Some((nm, empty_style_model())),
                                );
                                lemma_preserves_trans(
                                    m,
                                    m1,
                                    parse_lines(
                                        m1,
                                        lines,
                                        i + 1,
                                        Some((nm, empty_style_model())),
                                    ).map,
                                );
                            },
                            None => {},
                        }
                    }
                },
                Option::None => {
                    match quoted_name(line) {
                        Some(nm) => {
                            lemma_parse_preserves_entries(
                                m,
                                lines,
                                i + 1,
                                Some((nm, empty_style_model())),
                            );
                        },
                        None => {},
                    }
                },
            }
        } else if cur is Some {
            if line == "}"@ {
                let p = cur->0;
                if !m.contains_key(p.0) {
                    let m1 = m.insert(p.0, p.1);
                    lemma_preserves_insert_fresh(m, p.0, p.1);
                    lemma_parse_preserves_entries(m1, lines, i + 1, Option::None);
                    lemma_preserves_trans(
                        m,
                        m1,
                        parse_lines(m1, lines, i + 1, Option::None).map,
                    );
                }
            } else {
                let p = cur->0;
                match apply_decl(p.1, line) {
                    Some(st2) => {
                        lemma_parse_preserves_entries(m, lines, i + 1, Some((p.0, st2)));
                    },
                    None => {},
                }
            }
        } else {
            lemma_parse_preserves_entries(m, lines, i + 1, cur);
        }
    }
}

/// A pending block whose name the registry already holds can never be
/// committed: however the remaining lines read, the parse ends in an
/// error, never in success.
pub proof fn lemma_pending_duplicate_fails(
    m: Map<Seq<char>, StyleModel>,
    lines: Seq<Seq<char>>,
    i: int,
    cur: Option<(Seq<char>, StyleModel)>,
)
    requires
        cur is Some,
        m.contains_key(cur->0 .0),
    ensures
        parse_lines(m, lines, i, cur).err is Some,
    decreases lines.len() - i,
{
    if i < 0 || i >= lines.len() {
    } else {
        let line = trim_spec(lines[i]);
        if line.len() == 0 || starts_with_spec(line, "//"@) {
            lemma_pending_duplicate_fails(m, lines, i + 1, cur);
        } else if starts_with_spec(line, "@element"@) {
        } else if line == "}"@ {
        } else {
            let p = cur->0;
            match apply_decl(p.1, line) {
                Some(st2) => {
                    lemma_pending_duplicate_fails(m, lines, i + 1, Some((p.0, st2)));
                },
                None => {},
            }
        }
    }
}

/// A run that succeeded from registry map `m` is replayed on a larger map
/// `big` that holds every name the first run ends with: the replay either
/// stops at a duplicate-name error, or neither run commits anything.
proof fn lemma_rerun_aux(
    m: Map<Seq<char>, StyleModel>,
    big: Map<Seq<char>, StyleModel>,
    lines: Seq<Seq<char>>,
    i: int,
    cur: Option<(Seq<char>, StyleModel)>,
)
    requires
        parse_lines(m, lines, i, cur).err is None,
        forall|k: Seq<char>|
            parse_lines(m, lines, i, cur).map.contains_key(k) ==> #[trigger] big.contains_key(
                k,
            ),
    ensures
        (parse_lines(big, lines, i, cur).err is Some && parse_lines(
            big,
            lines,
            i,
            cur,
        ).err->0 is DuplicateElement) || (parse_lines(big, lines, i, cur).map == big
            && parse_lines(m, lines, i, cur).map == m),
    decreases lines.len() - i,
{
    let res1 = parse_lines(m, lines, i, cur);
    if i < 0 || i >= lines.len() {
        match cur {
            Option::Some(p) => {
                assert(!m.contains_key(p.0));
                assert(res1.map.contains_key(p.0));
                assert(big.contains_key(p.0));
            },
            Option::None => {},
        }
    } else {
        let line = trim_spec(lines[i]);
        if line.len() == 0 || starts_with_spec(line, "//"@) {
            lemma_rerun_aux(m, big, lines, i + 1, cur);
        } else if starts_with_spec(line, "@element"@) {
            match cur {
                Option::Some(p) => {
                    assert(!m.contains_key(p.0));
                    let m1 = m.insert(p.0, p.1);
                    match quoted_name(line) {
                        Some(nm) => {
                            lemma_parse_preserves_entries(
                                m1,
                                lines,
                                i + 1,
                                Some((nm, empty_style_model())),
                            );
                            assert(m1.contains_key(p.0));
                            assert(res1.map.contains_key(p.0));
                            assert(big.contains_key(p.0));
                        },
                        None => {},
                    }
                },
                Option::None => {
                    match quoted_name(line) {
                        Some(nm) => {
                            lemma_rerun_aux(m, big, lines, i + 1, Some((nm, empty_style_model())));
                        },
                        None => {},
                    }
                },
            }
        } else if cur is Some {
            if line == "}"@ {
                let p = cur->0;
                assert(!m.contains_key(p.0));
                let m1 = m.insert(p.0, p.1);
                lemma_parse_preserves_entries(m1, lines, i + 1, Option::None);
                assert(m1.contains_key(p.0));
                assert(res1.map.contains_key(p.0));
                assert(big.contains_key(p.0));
            } else {
                let p = cur->0;
                match apply_decl(p.1, line) {
                    Some(st2) => {
                        lemma_rerun_aux(m, big, lines, i + 1, Some((p.0, st2)));
                    },
                    None => {},
                }
            }
        } else {
            lemma_rerun_aux(m, big, lines, i + 1, cur);
        }
    }
}

/// A block name committed by one parse can never be committed again: once
/// a parse has succeeded and added at least one name to the registry,
/// parsing the same source against the resulting registry always fails
/// with a duplicate-name error, whatever the block bodies hold.
pub proof fn lemma_reparse_fails(m0: Map<Seq<char>, StyleModel>, lines: Seq<Seq<char>>)
    requires
        parse_lines(m0, lines, 0, Option::None).err is None,
        parse_lines(m0, lines, 0, Option::None).map != m0,
    ensures
        parse_lines(
            parse_lines(m0, lines, 0, Option::None).map,
            lines,
            0,
            Option::None,
        ).err is Some,
        parse_lines(
            parse_lines(m0, lines, 0, Option::None).map,
            lines,
            0,
            Option::None,
        ).err->0 is DuplicateElement,
{
    let big = parse_lines(m0, lines, 0, Option::None).map;
    lemma_rerun_aux(m0, big, lines, 0, Option::None);
}

/// The two-value padding shorthand sets top and bottom from the first
/// value and left and right from the second; the four-value shorthand sets
/// top, right, bottom, left in that order.
pub proof fn lemma_padding_shorthand_sides(st: StyleModel, value: Seq<char>)
    ensures
        ({
            let vs = split_ws_spec(value);
            let r = apply_padding_value(st, value);
            &&& (vs.len() == 2 && r is Some ==> r->0.padding_top == Some(parse_u8_spec(vs[0])->0)
                && r->0.padding_bottom == Some(parse_u8_spec(vs[0])->0) && r->0.padding_left
                == Some(parse_u8_spec(vs[1])->0) && r->0.padding_right == Some(
                parse_u8_spec(vs[1])->0,
            ))
            &&& (vs.len() == 4 && r is Some ==> r->0.padding_top == Some(parse_u8_spec(vs[0])->0)
                && r->0.padding_right == Some(parse_u8_spec(vs[1])->0) && r->0.padding_bottom
                == Some(parse_u8_spec(vs[2])->0) && r->0.padding_left == Some(
                parse_u8_spec(vs[3])->0,
            ))
        }),
{
}

/// The `border` shorthand is equivalent to a `border-style` declaration
/// with its first token followed by a `border-color` declaration with the
/// rest of the value.
pub proof fn lemma_border_shorthand_equivalent(st: StyleModel, btok: Seq<char>, ctok: Seq<char>)
    requires
        forall|j: int| 0 <= j < btok.len() ==> btok[j] != ' ',
    ensures
        ({
            let value = btok + seq![' '] + ctok;
            apply_border_shorthand(st, value) == (match apply_border_style_value(st, btok) {
                Some(st1) => apply_border_color_value(st1, ctok),
                None => None,
            })
        }),
{
    let value = btok + seq![' '] + ctok;
    assert(value.len() == btok.len() + 1 + ctok.len());
    assert(forall|j: int| 0 <= j < btok.len() ==> value[j] == btok[j]);
    assert(value[btok.len() as int] == ' ');
    crate::chars::lemma_first_idx_is(value, ' ', btok.len() as int);
    assert(value.subrange(0, btok.len() as int) =~= btok);
    assert(value.subrange(btok.len() as int + 1, value.len() as int) =~= ctok);
}

} // verus!
