//! Character classification, trimming, line splitting, prefix tests and
//! number reading: the textual ground the per-line grammar stands on, each
//! executable function proved against a spec function over `Seq<char>`.
use vstd::prelude::*;

use crate::model::NumberError;

verus! {

/// The Unicode `White_Space` code points, as `char::is_whitespace` knows them.
pub open spec fn is_ws(c: char) -> bool {
    let u = c as u32;
    (9 <= u && u <= 13) || u == 32 || u == 0x85 || u == 0xA0 || u == 0x1680 || (0x2000 <= u
        && u <= 0x200A) || u == 0x2028 || u == 0x2029 || u == 0x202F || u == 0x205F || u == 0x3000
}

pub fn is_ws_char(c: char) -> (b: bool)
    ensures
        b == is_ws(c),
{
    let u = c as u32;
    (9 <= u && u <= 13) || u == 32 || u == 0x85 || u == 0xA0 || u == 0x1680 || (0x2000 <= u
        && u <= 0x200A) || u == 0x2028 || u == 0x2029 || u == 0x202F || u == 0x205F || u == 0x3000
}

/// An ASCII decimal digit.
pub open spec fn is_digit(c: char) -> bool {
    48 <= c as u32 && c as u32 <= 57
}

pub fn is_digit_char(c: char) -> (b: bool)
    ensures
        b == is_digit(c),
{
    let u = c as u32;
    48 <= u && u <= 57
}

/// The code point of `c` with an ASCII upper-case letter folded to lower case.
pub open spec fn lower_u(c: char) -> u32 {
    if 65 <= c as u32 && c as u32 <= 90 {
        (c as u32 + 32) as u32
    } else {
        c as u32
    }
}

pub fn lower_of_char(c: char) -> (u: u32)
    ensures
        u == lower_u(c),
{
    let v = c as u32;
    if 65 <= v && v <= 90 {
        v + 32
    } else {
        v
    }
}

// ---------------------------------------------------------------------------
// Scanning
// ---------------------------------------------------------------------------

/// The first index at or after `i` holding `c`, or the length if there is none.
pub open spec fn scan_char(s: Seq<char>, i: int, c: char) -> int
    decreases s.len() - i,
{
    if i < 0 || i >= s.len() {
        s.len() as int
    } else if s[i] == c {
        i
    } else {
        scan_char(s, i + 1, c)
    }
}

pub proof fn lemma_scan_char_bounds(s: Seq<char>, i: int, c: char)
    requires
        0 <= i <= s.len(),
    ensures
        i <= scan_char(s, i, c) <= s.len(),
    decreases s.len() - i,
{
    if i < s.len() && s[i] != c {
        lemma_scan_char_bounds(s, i + 1, c);
    }
}

/// Find the first occurrence of `c` in `s` at or after `from`.
pub fn find_char(s: &str, from: usize, c: char) -> (j: usize)
    requires
        from <= s@.len(),
    ensures
        j == scan_char(s@, from as int, c),
        from <= j <= s@.len(),
        j < s@.len() ==> s@[j as int] == c,
{
    let len = s.unicode_len();
    let mut j = from;
    while j < len && s.get_char(j) != c
        invariant
            from <= j <= len,
            len == s@.len(),
            scan_char(s@, from as int, c) == scan_char(s@, j as int, c),
        decreases len - j,
    {
        j = j + 1;
    }
    j
}

/// The first index at or after `i` holding a character that is not whitespace.
pub open spec fn scan_non_ws(s: Seq<char>, i: int) -> int
    decreases s.len() - i,
{
    if i < 0 || i >= s.len() {
        s.len() as int
    } else if is_ws(s[i]) {
        scan_non_ws(s, i + 1)
    } else {
        i
    }
}

/// Scanning backward from `j`, the index one past the last non-whitespace
/// character strictly below `j`; `0` if everything below `j` is whitespace.
pub open spec fn scan_non_ws_back(s: Seq<char>, j: int) -> int
    decreases j,
{
    if j <= 0 || j > s.len() {
        0
    } else if is_ws(s[j - 1]) {
        scan_non_ws_back(s, j - 1)
    } else {
        j
    }
}

pub proof fn lemma_scan_non_ws_back_le(s: Seq<char>, j: int)
    requires
        0 <= j <= s.len(),
    ensures
        0 <= scan_non_ws_back(s, j) <= j,
    decreases j,
{
    if 0 < j <= s.len() && is_ws(s[j - 1]) {
        lemma_scan_non_ws_back_le(s, j - 1);
    }
}

/// `s` with leading and trailing whitespace removed, as `str::trim` does.
pub open spec fn spec_trim(s: Seq<char>) -> Seq<char> {
    let lo = scan_non_ws(s, 0);
    let hi = scan_non_ws_back(s, s.len() as int);
    if lo < hi {
        s.subrange(lo, hi)
    } else {
        Seq::empty()
    }
}

/// Trim whitespace from both ends, returning an owned copy.
pub fn trim_str(s: &str) -> (r: String)
    ensures
        r@ == spec_trim(s@),
{
    let len = s.unicode_len();
    let mut lo: usize = 0;
    while lo < len && is_ws_char(s.get_char(lo))
        invariant
            lo <= len,
            len == s@.len(),
            scan_non_ws(s@, 0) == scan_non_ws(s@, lo as int),
        decreases len - lo,
    {
        lo = lo + 1;
    }
    if lo == len {
        proof {
            lemma_scan_non_ws_back_le(s@, s@.len() as int);
        }
        return String::new();
    }
    let mut hi: usize = len;
    while hi > lo && is_ws_char(s.get_char(hi - 1))
        invariant
            lo < hi <= len,
            len == s@.len(),
            lo < len,
            !is_ws(s@[lo as int]),
            scan_non_ws(s@, 0) == lo as int,
            scan_non_ws_back(s@, len as int) == scan_non_ws_back(s@, hi as int),
        decreases hi,
    {
        proof {
            // the character at `lo` is not whitespace, so the scan cannot
            // step past it
            assert(hi - 1 != lo);
        }
        hi = hi - 1;
    }
    s.substring_char(lo, hi).to_owned()
}

/// Every character of `s` is an ASCII digit.
pub open spec fn all_digits(s: Seq<char>) -> bool {
    forall|k: int| 0 <= k < s.len() ==> is_digit(s[k])
}

/// Decide whether `s[from..to]` consists of ASCII digits alone.
pub fn all_digits_in(s: &str, from: usize, to: usize) -> (b: bool)
    requires
        from <= to <= s@.len(),
    ensures
        b == all_digits(s@.subrange(from as int, to as int)),
{
    let mut k = from;
    while k < to
        invariant
            from <= k <= to <= s@.len(),
            forall|j: int| from <= j < k ==> is_digit(s@[j]),
        decreases to - k,
    {
        if !is_digit_char(s.get_char(k)) {
            proof {
                assert(s@.subrange(from as int, to as int)[k - from] == s@[k as int]);
            }
            return false;
        }
        k = k + 1;
    }
    proof {
        assert forall|j: int| 0 <= j < to - from implies is_digit(
            s@.subrange(from as int, to as int)[j],
        ) by {
            assert(s@.subrange(from as int, to as int)[j] == s@[from + j]);
        }
    }
    true
}

/// The index of the first `#` in `s[i..]` that the `\`-escape state does not
/// hide: `\` toggles the escape flag, an escaped `#` clears it and stays
/// literal, every other character leaves it as it is.
pub open spec fn find_hash(s: Seq<char>, i: int, escaped: bool) -> Option<int>
    decreases s.len() - i,
{
    if i < 0 || i >= s.len() {
        None
    } else if s[i] == '\\' {
        find_hash(s, i + 1, !escaped)
    } else if s[i] == '#' {
        if escaped {
            find_hash(s, i + 1, false)
        } else {
            Some(i)
        }
    } else {
        find_hash(s, i + 1, escaped)
    }
}

// ---------------------------------------------------------------------------
// Prefixes and equality
// ---------------------------------------------------------------------------

/// `p` is a prefix of `s`.
pub open spec fn has_prefix(s: Seq<char>, p: Seq<char>) -> bool {
    p.len() <= s.len() && p == s.subrange(0, p.len() as int)
}

pub fn str_has_prefix(s: &str, p: &str) -> (b: bool)
    ensures
        b == has_prefix(s@, p@),
{
    let pl = p.unicode_len();
    let sl = s.unicode_len();
    if pl > sl {
        return false;
    }
    let mut i: usize = 0;
    while i < pl
        invariant
            0 <= i <= pl <= sl,
            pl == p@.len(),
            sl == s@.len(),
            forall|k: int| 0 <= k < i ==> s@[k] == p@[k],
        decreases pl - i,
    {
        if s.get_char(i) != p.get_char(i) {
            proof {
                assert(s@.subrange(0, pl as int)[i as int] != p@[i as int]);
            }
            return false;
        }
        i = i + 1;
    }
    proof {
        assert(p@ =~= s@.subrange(0, pl as int));
    }
    true
}

/// `p` is a prefix of `s` up to ASCII case.
pub open spec fn has_prefix_ci(s: Seq<char>, p: Seq<char>) -> bool {
    p.len() <= s.len() && forall|k: int| 0 <= k < p.len() ==> lower_u(s[k]) == lower_u(p[k])
}

pub fn str_has_prefix_ci(s: &str, p: &str) -> (b: bool)
    ensures
        b == has_prefix_ci(s@, p@),
{
    let pl = p.unicode_len();
    let sl = s.unicode_len();
    if pl > sl {
        return false;
    }
    let mut i: usize = 0;
    while i < pl
        invariant
            0 <= i <= pl <= sl,
            pl == p@.len(),
            sl == s@.len(),
            forall|k: int| 0 <= k < i ==> lower_u(s@[k]) == lower_u(p@[k]),
        decreases pl - i,
    {
        if lower_of_char(s.get_char(i)) != lower_of_char(p.get_char(i)) {
            return false;
        }
        i = i + 1;
    }
    true
}

/// Exact character-for-character equality of two string slices.
pub fn str_eq(s: &str, p: &str) -> (b: bool)
    ensures
        b == (s@ == p@),
{
    let pl = p.unicode_len();
    let sl = s.unicode_len();
    if pl != sl {
        return false;
    }
    let mut i: usize = 0;
    while i < pl
        invariant
            0 <= i <= pl == sl,
            pl == p@.len(),
            sl == s@.len(),
            forall|k: int| 0 <= k < i ==> s@[k] == p@[k],
        decreases pl - i,
    {
        if s.get_char(i) != p.get_char(i) {
            return false;
        }
        i = i + 1;
    }
    proof {
        assert(s@ =~= p@);
    }
    true
}

// ---------------------------------------------------------------------------
// Splitting a document into lines
// ---------------------------------------------------------------------------

/// Remove one trailing carriage return, if present.
pub open spec fn strip_cr(l: Seq<char>) -> Seq<char> {
    if l.len() > 0 && l[l.len() - 1] == '\r' {
        l.drop_last()
    } else {
        l
    }
}

/// The lines of `s[i..]`, split at `'\n'`, an optional final line ending,
/// and one `'\r'` stripped before each line feed — as `str::lines` yields
/// them.
pub open spec fn lines_from(s: Seq<char>, i: int) -> Seq<Seq<char>>
    decreases s.len() - i + 1,
    via lines_from_decreases
{
    if i < 0 || i >= s.len() {
        Seq::empty()
    } else {
        let j = scan_char(s, i, '\n');
        let piece = s.subrange(i, j);
        let l = if j < s.len() {
            strip_cr(piece)
        } else {
            piece
        };
        seq![l] + lines_from(s, j + 1)
    }
}

#[via_fn]
proof fn lines_from_decreases(s: Seq<char>, i: int) {
    if 0 <= i < s.len() {
        lemma_scan_char_bounds(s, i, '\n');
    }
}

/// The lines of a whole document.
pub open spec fn spec_lines(s: Seq<char>) -> Seq<Seq<char>> {
    lines_from(s, 0)
}

/// Split a document into its lines, as `str::lines` does.
pub fn split_lines(s: &str) -> (r: Vec<String>)
    ensures
        r.deep_view() == spec_lines(s@),
{
    let len = s.unicode_len();
    let mut r: Vec<String> = Vec::new();
    let mut i: usize = 0;
    while i < len
        invariant
            len == s@.len(),
            r.deep_view() + lines_from(s@, i as int) == spec_lines(s@),
        decreases len - i,
    {
        let j = find_char(s, i, '\n');
        let piece = s.substring_char(i, j);
        let pl = j - i;
        let line: String = if j < len && pl > 0 && piece.get_char(pl - 1) == '\r' {
            piece.substring_char(0, pl - 1).to_owned()
        } else {
            piece.to_owned()
        };
        proof {
            let lm = if (j as int) < s@.len() {
                strip_cr(s@.subrange(i as int, j as int))
            } else {
                s@.subrange(i as int, j as int)
            };
            assert(piece@.len() == pl);
            if (j as int) < s@.len() && pl > 0 && piece@[pl - 1] == '\r' {
                assert(piece@.subrange(0, pl - 1) =~= piece@.drop_last());
            }
            assert(line@ == lm);
            assert(lines_from(s@, i as int) =~= seq![lm] + lines_from(s@, j + 1));
            assert((r.deep_view().push(line@)) + lines_from(s@, j + 1) =~= r.deep_view() + (seq![
                lm,
            ] + lines_from(s@, j + 1)));
            let old_dv = r.deep_view();
            assert(old_dv.push(line@) =~= old_dv + seq![line@]);
        }
        let ghost old_r = r;
        r.push(line);
        proof {
            assert(r.deep_view() =~= old_r.deep_view().push(line@));
        }
        i = if j == len {
            len
        } else {
            j + 1
        };
        proof {
            if j == len {
                assert(lines_from(s@, len as int) =~= lines_from(s@, j + 1));
            }
        }
    }
    proof {
        assert(r.deep_view() + lines_from(s@, i as int) =~= r.deep_view());
    }
    r
}

// ---------------------------------------------------------------------------
// Reading an unsigned number
// ---------------------------------------------------------------------------

/// Accumulate decimal digits of `s[i..]` onto `acc`, failing on the first
/// non-digit or as soon as the value no longer fits in `usize`.
pub open spec fn scan_usize(s: Seq<char>, i: int, acc: usize) -> Result<usize, NumberError>
    decreases s.len() - i,
{
    if i < 0 || i >= s.len() {
        Ok(acc)
    } else if !is_digit(s[i]) {
        Err(NumberError::InvalidDigit)
    } else {
        let d = (s[i] as u32 - 48) as usize;
        if acc as int * 10 + d as int > usize::MAX as int {
            Err(NumberError::Overflow)
        } else {
            scan_usize(s, i + 1, (acc * 10 + d) as usize)
        }
    }
}

/// The value of `s` as `usize`, read as `str::parse::<usize>` reads it: an
/// optional leading `+`, then one or more ASCII digits.
pub open spec fn spec_parse_usize(s: Seq<char>) -> Result<usize, NumberError> {
    if s.len() == 0 {
        Err(NumberError::Empty)
    } else {
        let off: int = if s[0] == '+' {
            1
        } else {
            0
        };
        if s.len() == off {
            Err(NumberError::InvalidDigit)
        } else {
            scan_usize(s, off, 0)
        }
    }
}

/// Read an unsigned number from the whole of `s`.
pub fn parse_usize(s: &str) -> (r: Result<usize, NumberError>)
    ensures
        r == spec_parse_usize(s@),
{
    let len = s.unicode_len();
    if len == 0 {
        return Err(NumberError::Empty);
    }
    let off: usize = if s.get_char(0) == '+' {
        1
    } else {
        0
    };
    if len == off {
        return Err(NumberError::InvalidDigit);
    }
    let mut acc: usize = 0;
    let mut i: usize = off;
    while i < len
        invariant
            off <= i <= len,
            len == s@.len(),
            len > 0,
            off == (if s@[0] == '+' {
                1int
            } else {
                0int
            }),
            len != off,
            scan_usize(s@, off as int, 0) == scan_usize(s@, i as int, acc),
        decreases len - i,
    {
        let c = s.get_char(i);
        if !is_digit_char(c) {
            return Err(NumberError::InvalidDigit);
        }
        let d = (c as u32 - 48) as usize;
        match acc.checked_mul(10) {
            None => {
                return Err(NumberError::Overflow);
            },
            Some(m) => match m.checked_add(d) {
                None => {
                    return Err(NumberError::Overflow);
                },
                Some(v) => {
                    acc = v;
                },
            },
        }
        i = i + 1;
    }
    Ok(acc)
}

} // verus!
