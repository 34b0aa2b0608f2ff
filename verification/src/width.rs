//! Display width of text under East-Asian width rules, measured by the
//! `unicode_width` crate. The width of a string is not the sum of its
//! character widths (ligatures and emoji sequences are special-cased), so
//! each measure is named as a function of the whole character sequence.

use vstd::prelude::*;
use unicode_width::UnicodeWidthStr;

verus! {

/// The displayed column count of a character sequence with ambiguous-width
/// characters counted narrow, as `UnicodeWidthStr::width` computes it.
pub uninterp spec fn text_width(s: Seq<char>) -> nat;

/// The displayed column count of a character sequence with ambiguous-width
/// characters counted wide, as `UnicodeWidthStr::width_cjk` computes it.
pub uninterp spec fn text_width_cjk(s: Seq<char>) -> nat;

/// Relies on unicode_width's `UnicodeWidthStr::width`: the displayed column
/// count of the string, a function of its characters alone.
#[verifier::external_body]
pub(crate) fn measure_width(v: &Vec<char>) -> (r: usize)
    ensures
        r as nat == text_width(v@),
{
    let s: String = v.iter().collect();
    UnicodeWidthStr::width(s.as_str())
}

/// Relies on unicode_width's `UnicodeWidthStr::width_cjk`: the displayed
/// column count of the string in a CJK context, a function of its
/// characters alone.
#[verifier::external_body]
pub(crate) fn measure_width_cjk(v: &Vec<char>) -> (r: usize)
    ensures
        r as nat == text_width_cjk(v@),
{
    let s: String = v.iter().collect();
    UnicodeWidthStr::width_cjk(s.as_str())
}

} // verus!
