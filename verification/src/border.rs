//! Border kinds. Each kind maps to a fixed set of six box-drawing glyphs:
//! four corners, one horizontal, one vertical.

use vstd::prelude::*;
use vstd::string::StringExecFns;
use crate::chars::{chars_eq, str_to_chars};

verus! {

#[derive(Clone, Copy, PartialEq, Eq, Structural, Debug)]
pub enum BorderStyle {
    Solid,
    Dashed,
    Rounded,
    Double,
}

/// The border kind named by a token: an exact lower-case keyword match.
pub open spec fn border_token_spec(s: Seq<char>) -> Option<BorderStyle> {
    if s == "solid"@ {
        Some(BorderStyle::Solid)
    } else if s == "dashed"@ {
        Some(BorderStyle::Dashed)
    } else if s == "rounded"@ {
        Some(BorderStyle::Rounded)
    } else if s == "double"@ {
        Some(BorderStyle::Double)
    } else {
        None
    }
}

impl BorderStyle {
    /// Parses a border keyword held as a character vector.
    pub(crate) fn from_chars(v: &Vec<char>) -> (r: Option<BorderStyle>)
        ensures
            r == border_token_spec(v@),
    {
        if chars_eq(v, &str_to_chars("solid")) {
            return Some(BorderStyle::Solid);
        }
        if chars_eq(v, &str_to_chars("dashed")) {
            return Some(BorderStyle::Dashed);
        }
        if chars_eq(v, &str_to_chars("rounded")) {
            return Some(BorderStyle::Rounded);
        }
        if chars_eq(v, &str_to_chars("double")) {
            return Some(BorderStyle::Double);
        }
        None
    }

    /// Parses a border keyword.
    pub fn from_str(s: &str) -> (r: Result<BorderStyle, String>)
        ensures
            r is Ok <==> border_token_spec(s@) is Some,
            r is Ok ==> r->Ok_0 == border_token_spec(s@)->0,
    {
        let v = str_to_chars(s);
        match BorderStyle::from_chars(&v) {
            Some(b) => Ok(b),
            None => {
                let mut m = "Unknown border style: ".to_owned();
                m.append(s);
                Err(m)
            },
        }
    }
}

} // verus!
