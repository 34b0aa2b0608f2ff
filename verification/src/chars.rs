//! Character-sequence utilities shared by the declaration parser and the
//! renderer: conversions between `str`/`String` and `Vec<char>`, trimming,
//! splitting, and numeric token parsing, each specified over `Seq<char>`.

use vstd::prelude::*;
use vstd::string::StrSliceExecFns;

verus! {

/// The Unicode `White_Space` code points, as `char::is_whitespace` reports them.
pub open spec fn is_space(c: char) -> bool {
    c == ' ' || c == '\t' || c == '\n' || c == '\r' || c == '\u{b}' || c == '\u{c}'
        || c == '\u{85}' || c == '\u{a0}' || c == '\u{1680}'
        || (0x2000 <= (c as u32) && (c as u32) <= 0x200a)
        || c == '\u{2028}' || c == '\u{2029}' || c == '\u{202f}' || c == '\u{205f}'
        || c == '\u{3000}'
}

pub(crate) fn is_space_ch(c: char) -> (b: bool)
    ensures
        b == is_space(c),
{
    c == ' ' || c == '\t' || c == '\n' || c == '\r' || c == '\u{b}' || c == '\u{c}'
        || c == '\u{85}' || c == '\u{a0}' || c == '\u{1680}'
        || (0x2000 <= (c as u32) && (c as u32) <= 0x200a)
        || c == '\u{2028}' || c == '\u{2029}' || c == '\u{202f}' || c == '\u{205f}'
        || c == '\u{3000}'
}

/// Collects the characters of a string slice into a vector.
pub(crate) fn str_to_chars(s: &str) -> (r: Vec<char>)
    ensures
        r@ == s@,
{
    let n: usize = s.unicode_len();
    let mut r: Vec<char> = Vec::new();
    let mut i: usize = 0;
    while i < n
        invariant
            n == s@.len(),
            i <= n,
            r@ == s@.subrange(0, i as int),
        decreases n - i,
    {
        r.push(s.get_char(i));
        proof {
            assert(r@ =~= s@.subrange(0, i + 1 as int));
        }
        i = i + 1;
    }
    proof {
        assert(s@.subrange(0, n as int) =~= s@);
    }
    r
}

/// Relies on `core::iter::Iterator::collect` building a `String` from the
/// characters of the vector, in order.
#[verifier::external_body]
pub(crate) fn chars_to_string(v: &Vec<char>) -> (r: String)
    ensures
        r@ == v@,
{
    v.iter().collect()
}

/// A copy of the characters of `v` in positions `a..b`.
pub(crate) fn subvec(v: &Vec<char>, a: usize, b: usize) -> (r: Vec<char>)
    requires
        a <= b <= v@.len(),
    ensures
        r@ == v@.subrange(a as int, b as int),
{
    let mut r: Vec<char> = Vec::new();
    let mut i: usize = a;
    while i < b
        invariant
            a <= i <= b <= v@.len(),
            r@ == v@.subrange(a as int, i as int),
        decreases b - i,
    {
        r.push(v[i]);
        proof {
            assert(r@ =~= v@.subrange(a as int, i + 1 as int));
        }
        i = i + 1;
    }
    r
}

pub(crate) fn chars_eq(a: &Vec<char>, b: &Vec<char>) -> (r: bool)
    ensures
        r == (a@ == b@),
{
    if a.len() != b.len() {
        return false;
    }
    let n: usize = a.len();
    let mut i: usize = 0;
    while i < n
        invariant
            n == a@.len() == b@.len(),
            i <= n,
            forall|j: int| 0 <= j < i ==> a@[j] == b@[j],
        decreases n - i,
    {
        if a[i] != b[i] {
            return false;
        }
        i = i + 1;
    }
    proof {
        assert(a@ =~= b@);
    }
    true
}

/// `s` with its leading white space removed.
pub open spec fn trim_left_spec(s: Seq<char>) -> Seq<char>
    decreases s.len(),
{
    if s.len() > 0 && is_space(s[0]) {
        trim_left_spec(s.subrange(1, s.len() as int))
    } else {
        s
    }
}

/// `s` with its trailing white space removed.
pub open spec fn trim_right_spec(s: Seq<char>) -> Seq<char>
    decreases s.len(),
{
    if s.len() > 0 && is_space(s[s.len() - 1]) {
        trim_right_spec(s.subrange(0, s.len() - 1))
    } else {
        s
    }
}

/// `s` with white space removed from both ends, as `str::trim` leaves it.
pub open spec fn trim_spec(s: Seq<char>) -> Seq<char> {
    trim_right_spec(trim_left_spec(s))
}

pub(crate) fn trim_chars(v: &Vec<char>) -> (r: Vec<char>)
    ensures
        r@ == trim_spec(v@),
{
    let n: usize = v.len();
    proof {
        assert(v@.subrange(0, n as int) =~= v@);
    }
    let mut lo: usize = 0;
    while lo < n && is_space_ch(v[lo])
        invariant
            lo <= n,
            n == v@.len(),
            trim_left_spec(v@) == trim_left_spec(v@.subrange(lo as int, n as int)),
        decreases n - lo,
    {
        proof {
            assert(v@.subrange(lo as int, n as int).subrange(1, (n - lo) as int) =~= v@.subrange(
                lo + 1,
                n as int,
            ));
        }
        lo = lo + 1;
    }
    proof {
        assert(trim_left_spec(v@) == v@.subrange(lo as int, n as int));
    }
    let mut hi: usize = n;
    while hi > lo && is_space_ch(v[hi - 1])
        invariant
            lo <= hi <= n,
            n == v@.len(),
            trim_left_spec(v@) == v@.subrange(lo as int, n as int),
            trim_right_spec(v@.subrange(lo as int, n as int)) == trim_right_spec(
                v@.subrange(lo as int, hi as int),
            ),
        decreases hi,
    {
        proof {
            assert(v@.subrange(lo as int, hi as int).subrange(0, (hi - lo - 1) as int)
                =~= v@.subrange(lo as int, hi - 1));
        }
        hi = hi - 1;
    }
    subvec(v, lo, hi)
}

/// The position of the first occurrence of `sep` in `s`, or `s.len()` if absent.
pub open spec fn first_idx(s: Seq<char>, sep: char) -> int
    decreases s.len(),
{
    if s.len() == 0 {
        0
    } else if s[0] == sep {
        0
    } else {
        1 + first_idx(s.subrange(1, s.len() as int), sep)
    }
}

pub proof fn lemma_first_idx_bounds(s: Seq<char>, sep: char)
    ensures
        0 <= first_idx(s, sep) <= s.len(),
        forall|j: int| 0 <= j < first_idx(s, sep) ==> s[j] != sep,
        first_idx(s, sep) < s.len() ==> s[first_idx(s, sep)] == sep,
    decreases s.len(),
{
    if s.len() == 0 {
    } else if s[0] == sep {
    } else {
        let t = s.subrange(1, s.len() as int);
        lemma_first_idx_bounds(t, sep);
        assert forall|j: int| 0 <= j < first_idx(s, sep) implies s[j] != sep by {
            if j >= 1 {
                assert(s[j] == t[j - 1]);
            }
        }
    }
}

pub proof fn lemma_first_idx_is(s: Seq<char>, sep: char, k: int)
    requires
        0 <= k <= s.len(),
        forall|j: int| 0 <= j < k ==> s[j] != sep,
        k < s.len() ==> s[k] == sep,
    ensures
        first_idx(s, sep) == k,
    decreases s.len(),
{
    if s.len() == 0 {
    } else if s[0] == sep {
    } else {
        let t = s.subrange(1, s.len() as int);
        assert(forall|j: int| 0 <= j < k - 1 ==> t[j] != sep);
        lemma_first_idx_is(t, sep, k - 1);
    }
}

/// The pieces of `s` between occurrences of `sep`, as `str::split` yields them:
/// always at least one piece, possibly empty.
pub open spec fn split_char_spec(s: Seq<char>, sep: char) -> Seq<Seq<char>>
    decreases s.len(),
    via split_char_decreases
{
    let k = first_idx(s, sep);
    if k == s.len() {
        seq![s]
    } else {
        seq![s.subrange(0, k)] + split_char_spec(s.subrange(k + 1, s.len() as int), sep)
    }
}

#[via_fn]
proof fn split_char_decreases(s: Seq<char>, sep: char) {
    lemma_first_idx_bounds(s, sep);
}

pub proof fn lemma_split_char_len(s: Seq<char>, sep: char)
    ensures
        split_char_spec(s, sep).len() >= 1,
    decreases s.len(),
{
    lemma_first_idx_bounds(s, sep);
    let k = first_idx(s, sep);
    if k != s.len() {
        lemma_split_char_len(s.subrange(k + 1, s.len() as int), sep);
    }
}

/// Views of a vector of character vectors, one sequence per piece.
pub open spec fn views_of(r: Seq<Vec<char>>) -> Seq<Seq<char>> {
    r.map_values(|p: Vec<char>| p@)
}

pub(crate) fn split_char(v: &Vec<char>, sep: char) -> (r: Vec<Vec<char>>)
    ensures
        views_of(r@) == split_char_spec(v@, sep),
    decreases v@.len(),
{
    let n: usize = v.len();
    let mut k: usize = 0;
    while k < n && v[k] != sep
        invariant
            k <= n,
            n == v@.len(),
            forall|j: int| 0 <= j < k ==> v@[j] != sep,
        decreases n - k,
    {
        k = k + 1;
    }
    proof {
        lemma_first_idx_is(v@, sep, k as int);
    }
    if k == n {
        let mut r: Vec<Vec<char>> = Vec::new();
        r.push(subvec(v, 0, n));
        proof {
            assert(v@.subrange(0, n as int) =~= v@);
            assert(views_of(r@) =~~= split_char_spec(v@, sep));
        }
        r
    } else {
        let piece = subvec(v, 0, k);
        let rest = subvec(v, k + 1, n);
        let tail = split_char(&rest, sep);
        let mut r: Vec<Vec<char>> = Vec::new();
        r.push(piece);
        let mut i: usize = 0;
        let m: usize = tail.len();
        while i < m
            invariant
                i <= m,
                m == tail@.len(),
                r@.len() == 1 + i,
                r@[0]@ == v@.subrange(0, k as int),
                forall|j: int| 0 <= j < i ==> r@[j + 1]@ == tail@[j]@,
            decreases m - i,
        {
            let p = subvec(&tail[i], 0, tail[i].len());
            proof {
                assert(tail@[i as int]@.subrange(0, tail@[i as int]@.len() as int)
                    =~= tail@[i as int]@);
            }
            r.push(p);
            i = i + 1;
        }
        proof {
            assert(views_of(r@) =~~= split_char_spec(v@, sep));
        }
        r
    }
}

/// A piece with one trailing carriage return removed, if it has one.
pub open spec fn strip_cr(p: Seq<char>) -> Seq<char> {
    if p.len() > 0 && p[p.len() - 1] == '\r' {
        p.subrange(0, p.len() - 1)
    } else {
        p
    }
}

/// The lines of `s`, as `str::lines` yields them: split at `'\n'`, a carriage
/// return directly before the newline is dropped, and a final empty piece
/// (from a trailing line ending, or from empty input) is not a line.
pub open spec fn lines_spec(s: Seq<char>) -> Seq<Seq<char>> {
    let ps = split_char_spec(s, '\n');
    let main = Seq::new((ps.len() - 1) as nat, |i: int| strip_cr(ps[i]));
    if ps[ps.len() - 1].len() == 0 {
        main
    } else {
        main + seq![ps[ps.len() - 1]]
    }
}

pub(crate) fn split_lines(v: &Vec<char>) -> (r: Vec<Vec<char>>)
    ensures
        views_of(r@) == lines_spec(v@),
{
    let ps = split_char(v, '\n');
    proof {
        lemma_split_char_len(v@, '\n');
    }
    let m: usize = ps.len();
    let mut r: Vec<Vec<char>> = Vec::new();
    let mut i: usize = 0;
    while i < m - 1
        invariant
            m == ps@.len() >= 1,
            views_of(ps@) == split_char_spec(v@, '\n'),
            i <= m - 1,
            r@.len() == i,
            forall|j: int| 0 <= j < i ==> #[trigger] r@[j]@ == strip_cr(views_of(ps@)[j]),
        decreases m - 1 - i,
    {
        let p = &ps[i];
        let pl: usize = p.len();
        if pl > 0 && p[pl - 1] == '\r' {
            r.push(subvec(p, 0, pl - 1));
        } else {
            r.push(subvec(p, 0, pl));
            proof {
                assert(p@.subrange(0, pl as int) =~= p@);
            }
        }
        i = i + 1;
    }
    let last = &ps[m - 1];
    if last.len() > 0 {
        r.push(subvec(last, 0, last.len()));
        proof {
            assert(last@.subrange(0, last@.len() as int) =~= last@);
        }
    }
    proof {
        assert(views_of(r@) =~~= lines_spec(v@));
    }
    r
}

/// The position of the first white-space character in `s`, or `s.len()`.
pub open spec fn first_space(s: Seq<char>) -> int
    decreases s.len(),
{
    if s.len() == 0 {
        0
    } else if is_space(s[0]) {
        0
    } else {
        1 + first_space(s.subrange(1, s.len() as int))
    }
}

pub proof fn lemma_first_space_bounds(s: Seq<char>)
    ensures
        0 <= first_space(s) <= s.len(),
        forall|j: int| 0 <= j < first_space(s) ==> !is_space(s[j]),
        first_space(s) < s.len() ==> is_space(s[first_space(s)]),
    decreases s.len(),
{
    if s.len() == 0 {
    } else if is_space(s[0]) {
    } else {
        let t = s.subrange(1, s.len() as int);
        lemma_first_space_bounds(t);
        assert forall|j: int| 0 <= j < first_space(s) implies !is_space(s[j]) by {
            if j >= 1 {
                assert(s[j] == t[j - 1]);
            }
        }
    }
}

pub proof fn lemma_first_space_is(s: Seq<char>, k: int)
    requires
        0 <= k <= s.len(),
        forall|j: int| 0 <= j < k ==> !is_space(s[j]),
        k < s.len() ==> is_space(s[k]),
    ensures
        first_space(s) == k,
    decreases s.len(),
{
    if s.len() == 0 {
    } else if is_space(s[0]) {
    } else {
        let t = s.subrange(1, s.len() as int);
        assert(forall|j: int| 0 <= j < k - 1 ==> !is_space(t[j]));
        lemma_first_space_is(t, k - 1);
    }
}

/// The maximal runs of non-white-space characters in `s`, as
/// `str::split_whitespace` yields them: no piece is empty.
pub open spec fn split_ws_spec(s: Seq<char>) -> Seq<Seq<char>>
    decreases s.len(),
    via split_ws_decreases
{
    if s.len() == 0 {
        Seq::empty()
    } else if is_space(s[0]) {
        split_ws_spec(s.subrange(1, s.len() as int))
    } else {
        let k = first_space(s);
        seq![s.subrange(0, k)] + split_ws_spec(s.subrange(k, s.len() as int))
    }
}

#[via_fn]
proof fn split_ws_decreases(s: Seq<char>) {
    lemma_first_space_bounds(s);
    if s.len() > 0 && !is_space(s[0]) {
        assert(first_space(s) >= 1) by {
            assert(!is_space(s[0]));
        }
    }
}

pub(crate) fn split_ws(v: &Vec<char>) -> (r: Vec<Vec<char>>)
    ensures
        views_of(r@) == split_ws_spec(v@),
    decreases v@.len(),
{
    let n: usize = v.len();
    if n == 0 {
        let r: Vec<Vec<char>> = Vec::new();
        proof {
            assert(views_of(r@) =~~= split_ws_spec(v@));
        }
        return r;
    }
    if is_space_ch(v[0]) {
        let rest = subvec(v, 1, n);
        let r = split_ws(&rest);
        return r;
    }
    let mut k: usize = 0;
    while k < n && !is_space_ch(v[k])
        invariant
            k <= n,
            n == v@.len(),
            forall|j: int| 0 <= j < k ==> !is_space(v@[j]),
        decreases n - k,
    {
        k = k + 1;
    }
    proof {
        lemma_first_space_is(v@, k as int);
    }
    let piece = subvec(v, 0, k);
    let rest = subvec(v, k, n);
    let tail = split_ws(&rest);
    let mut r: Vec<Vec<char>> = Vec::new();
    r.push(piece);
    let m: usize = tail.len();
    let mut i: usize = 0;
    while i < m
        invariant
            i <= m,
            m == tail@.len(),
            r@.len() == 1 + i,
            r@[0]@ == v@.subrange(0, k as int),
            forall|j: int| 0 <= j < i ==> r@[j + 1]@ == tail@[j]@,
        decreases m - i,
    {
        let p = subvec(&tail[i], 0, tail[i].len());
        proof {
            assert(tail@[i as int]@.subrange(0, tail@[i as int]@.len() as int)
                =~= tail@[i as int]@);
        }
        r.push(p);
        i = i + 1;
    }
    proof {
        assert(views_of(r@) =~~= split_ws_spec(v@));
    }
    r
}

/// `s` with every trailing semicolon removed, as
/// `str::trim_end_matches(';')` leaves it.
pub open spec fn strip_semis_spec(s: Seq<char>) -> Seq<char>
    decreases s.len(),
{
    if s.len() > 0 && s[s.len() - 1] == ';' {
        strip_semis_spec(s.subrange(0, s.len() - 1))
    } else {
        s
    }
}

pub(crate) fn strip_semis(v: &Vec<char>) -> (r: Vec<char>)
    ensures
        r@ == strip_semis_spec(v@),
{
    let n: usize = v.len();
    proof {
        assert(v@.subrange(0, n as int) =~= v@);
    }
    let mut hi: usize = n;
    while hi > 0 && v[hi - 1] == ';'
        invariant
            hi <= n,
            n == v@.len(),
            strip_semis_spec(v@) == strip_semis_spec(v@.subrange(0, hi as int)),
        decreases hi,
    {
        proof {
            assert(v@.subrange(0, hi as int).subrange(0, hi - 1 as int) =~= v@.subrange(
                0,
                hi - 1,
            ));
        }
        hi = hi - 1;
    }
    subvec(v, 0, hi)
}

/// Whether `s` begins with the characters of `p`.
pub open spec fn starts_with_spec(s: Seq<char>, p: Seq<char>) -> bool {
    p.len() <= s.len() && s.subrange(0, p.len() as int) == p
}

pub(crate) fn starts_with(v: &Vec<char>, p: &Vec<char>) -> (r: bool)
    ensures
        r == starts_with_spec(v@, p@),
{
    let m: usize = p.len();
    if m > v.len() {
        return false;
    }
    let head = subvec(v, 0, m);
    chars_eq(&head, p)
}

pub open spec fn is_digit(c: char) -> bool {
    48 <= (c as u32) && (c as u32) <= 57
}

pub open spec fn digit_val(c: char) -> nat {
    if is_digit(c) {
        ((c as u32) - 48) as nat
    } else {
        0
    }
}

pub open spec fn all_digits(s: Seq<char>) -> bool {
    forall|j: int| 0 <= j < s.len() ==> is_digit(s[j])
}

/// The numeric value of a digit string, most significant digit first.
pub open spec fn digits_val(s: Seq<char>) -> nat
    decreases s.len(),
{
    if s.len() == 0 {
        0
    } else {
        digits_val(s.subrange(0, s.len() - 1)) * 10 + digit_val(s[s.len() - 1])
    }
}

/// The value `str::parse::<u8>` yields: an optional leading `'+'`, then one
/// or more decimal digits whose value fits in a byte; anything else fails.
pub open spec fn parse_u8_spec(s: Seq<char>) -> Option<u8> {
    let body = if s.len() > 0 && s[0] == '+' {
        s.subrange(1, s.len() as int)
    } else {
        s
    };
    if body.len() > 0 && all_digits(body) && digits_val(body) <= 255 {
        Some(digits_val(body) as u8)
    } else {
        None
    }
}

pub(crate) fn parse_u8(v: &Vec<char>) -> (r: Option<u8>)
    ensures
        r == parse_u8_spec(v@),
{
    let n: usize = v.len();
    let start: usize = if n > 0 && v[0] == '+' {
        1
    } else {
        0
    };
    let ghost body = if v@.len() > 0 && v@[0] == '+' {
        v@.subrange(1, v@.len() as int)
    } else {
        v@
    };
    proof {
        if !(v@.len() > 0 && v@[0] == '+') {
            assert(v@.subrange(0, n as int) =~= v@);
        }
        assert(body =~= v@.subrange(start as int, n as int));
    }
    if start == n {
        return None;
    }
    let mut i: usize = start;
    let mut acc: u32 = 0;
    while i < n
        invariant
            start <= i <= n,
            n == v@.len(),
            body == v@.subrange(start as int, n as int),
            body == (if v@.len() > 0 && v@[0] == '+' {
                v@.subrange(1, v@.len() as int)
            } else {
                v@
            }),
            forall|j: int| start <= j < i ==> is_digit(v@[j]),
            acc == if digits_val(body.subrange(0, (i - start) as int)) <= 256 {
                digits_val(body.subrange(0, (i - start) as int))
            } else {
                256
            },
        decreases n - i,
    {
        let c = v[i];
        if !((c as u32) >= 48 && (c as u32) <= 57) {
            proof {
                assert(body[i - start] == v@[i as int]);
                assert(!all_digits(body));
            }
            return None;
        }
        let d: u32 = (c as u32) - 48;
        let next: u32 = if acc * 10 + d <= 256 {
            acc * 10 + d
        } else {
            256
        };
        proof {
            let pre = body.subrange(0, (i - start) as int);
            let cur = body.subrange(0, (i + 1 - start) as int);
            assert(cur.subrange(0, cur.len() - 1) =~= pre);
            assert(cur[cur.len() - 1] == v@[i as int]);
            assert(digits_val(cur) == digits_val(pre) * 10 + digit_val(v@[i as int]));
        }
        acc = next;
        i = i + 1;
    }
    proof {
        assert(body.subrange(0, (n - start) as int) =~= body);
        assert(all_digits(body));
    }
    if acc <= 255 {
        Some(acc as u8)
    } else {
        None
    }
}

/// ASCII letters mapped to lower case; every other character unchanged.
pub open spec fn lower_char(c: char) -> char {
    if 65 <= (c as u32) && (c as u32) <= 90 {
        (((c as u32) + 32) as u8) as char
    } else {
        c
    }
}

pub open spec fn ascii_lower_spec(s: Seq<char>) -> Seq<char> {
    Seq::new(s.len(), |i: int| lower_char(s[i]))
}

pub(crate) fn ascii_lower(v: &Vec<char>) -> (r: Vec<char>)
    ensures
        r@ == ascii_lower_spec(v@),
{
    let n: usize = v.len();
    let mut r: Vec<char> = Vec::new();
    let mut i: usize = 0;
    while i < n
        invariant
            i <= n,
            n == v@.len(),
            r@.len() == i,
            forall|j: int| 0 <= j < i ==> r@[j] == lower_char(v@[j]),
        decreases n - i,
    {
        let c = v[i];
        if (c as u32) >= 65 && (c as u32) <= 90 {
            let b: u8 = ((c as u32) + 32) as u8;
            r.push(b as char);
        } else {
            r.push(c);
        }
        i = i + 1;
    }
    proof {
        assert(r@ =~= ascii_lower_spec(v@));
    }
    r
}

/// The decimal digits of a byte value, without leading zeros.
pub open spec fn u8_digits(n: u8) -> Seq<char> {
    if n < 10 {
        seq![digit_char(n as nat)]
    } else if n < 100 {
        seq![digit_char((n / 10) as nat), digit_char((n % 10) as nat)]
    } else {
        seq![
            digit_char((n / 100) as nat),
            digit_char(((n / 10) % 10) as nat),
            digit_char((n % 10) as nat),
        ]
    }
}

pub open spec fn digit_char(d: nat) -> char {
    ((48 + d) as u8) as char
}

pub(crate) fn push_u8_digits(out: &mut Vec<char>, n: u8)
    ensures
        final(out)@ == old(out)@ + u8_digits(n),
{
    if n < 10 {
        out.push((48 + n) as char);
    } else if n < 100 {
        out.push((48 + n / 10) as char);
        out.push((48 + n % 10) as char);
    } else {
        out.push((48 + n / 100) as char);
        out.push((48 + (n / 10) % 10) as char);
        out.push((48 + n % 10) as char);
    }
    proof {
        assert(out@ =~= old(out)@ + u8_digits(n));
    }
}

} // verus!
