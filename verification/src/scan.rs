//! Low-level byte scanning: character classes, greedy skips, and searches
//! for delimiter bytes. Every executable function returns exactly the value
//! of its spec counterpart.

use vstd::prelude::*;

verus! {

/// The byte value of the space character `' '`.
pub const SPACE: u8 = 32;

/// The byte value of the newline character `'\n'`.
pub const NEWLINE: u8 = 10;

/// The byte value of the dash character `'-'`.
pub const DASH: u8 = 45;

/// The byte value of the colon character `':'`.
pub const COLON: u8 = 58;

/// The byte values of the decimal digits `'0'` and `'9'`.
pub const DIGIT_ZERO: u8 = 48;

/// See `DIGIT_ZERO`.
pub const DIGIT_NINE: u8 = 57;

/// A decimal digit byte (`'0'` through `'9'`).
pub open spec fn is_digit(b: u8) -> bool {
    DIGIT_ZERO <= b && b <= DIGIT_NINE
}

/// A byte that may occur inside a time token: a digit or a colon.
pub open spec fn is_time_byte(b: u8) -> bool {
    is_digit(b) || b == COLON
}

/// Greedily skip space bytes starting at `pos`; the first non-space
/// position (or the end of the input).
pub open spec fn spec_skip_spaces(s: Seq<u8>, pos: int) -> int
    decreases s.len() - pos,
{
    if pos < s.len() && s[pos] == SPACE {
        spec_skip_spaces(s, pos + 1)
    } else {
        pos
    }
}

/// Greedily skip time-token bytes and spaces starting at `pos`.
pub open spec fn spec_skip_timespace(s: Seq<u8>, pos: int) -> int
    decreases s.len() - pos,
{
    if pos < s.len() && (is_time_byte(s[pos]) || s[pos] == SPACE) {
        spec_skip_timespace(s, pos + 1)
    } else {
        pos
    }
}

/// Greedily skip dash bytes starting at `pos`.
pub open spec fn spec_skip_dashes(s: Seq<u8>, pos: int) -> int
    decreases s.len() - pos,
{
    if pos < s.len() && s[pos] == DASH {
        spec_skip_dashes(s, pos + 1)
    } else {
        pos
    }
}

/// The position of the first occurrence of `b` at or after `pos`, if any.
pub open spec fn spec_find_byte(s: Seq<u8>, pos: int, b: u8) -> Option<int>
    decreases s.len() - pos,
{
    if pos < s.len() {
        if s[pos] == b {
            Some(pos)
        } else {
            spec_find_byte(s, pos + 1, b)
        }
    } else {
        None
    }
}

/// The position of the first occurrence of the two-byte sequence `": "`
/// at or after `pos`, if any.
pub open spec fn spec_find_colon_space(s: Seq<u8>, pos: int) -> Option<int>
    decreases s.len() - pos,
{
    if pos + 1 < s.len() {
        if s[pos] == COLON && s[pos + 1] == SPACE {
            Some(pos)
        } else {
            spec_find_colon_space(s, pos + 1)
        }
    } else {
        None
    }
}

/// Skip space bytes; returns the first position holding something else.
pub fn skip_spaces(s: &[u8], pos: usize) -> (r: usize)
    requires
        pos <= s@.len(),
    ensures
        r as int == spec_skip_spaces(s@, pos as int),
        pos <= r <= s@.len(),
{
    let mut p: usize = pos;
    while p < s.len() && s[p] == SPACE
        invariant
            pos <= p <= s@.len(),
            spec_skip_spaces(s@, pos as int) == spec_skip_spaces(s@, p as int),
        decreases s@.len() - p,
    {
        p = p + 1;
    }
    p
}

/// Skip time-token bytes and spaces; returns the first position holding
/// something else.
pub fn skip_timespace(s: &[u8], pos: usize) -> (r: usize)
    requires
        pos <= s@.len(),
    ensures
        r as int == spec_skip_timespace(s@, pos as int),
        pos <= r <= s@.len(),
{
    let mut p: usize = pos;
    while p < s.len() && (s[p] == COLON || (DIGIT_ZERO <= s[p] && s[p] <= DIGIT_NINE) || s[p] == SPACE)
        invariant
            pos <= p <= s@.len(),
            spec_skip_timespace(s@, pos as int) == spec_skip_timespace(s@, p as int),
        decreases s@.len() - p,
    {
        p = p + 1;
    }
    p
}

/// Skip dash bytes; returns the first position holding something else.
pub fn skip_dashes(s: &[u8], pos: usize) -> (r: usize)
    requires
        pos <= s@.len(),
    ensures
        r as int == spec_skip_dashes(s@, pos as int),
        pos <= r <= s@.len(),
{
    let mut p: usize = pos;
    while p < s.len() && s[p] == DASH
        invariant
            pos <= p <= s@.len(),
            spec_skip_dashes(s@, pos as int) == spec_skip_dashes(s@, p as int),
        decreases s@.len() - p,
    {
        p = p + 1;
    }
    p
}

/// Find the first occurrence of the byte `b` at or after `pos`.
pub fn find_byte(s: &[u8], pos: usize, b: u8) -> (r: Option<usize>)
    requires
        pos <= s@.len(),
    ensures
        (r matches Some(m) ==> spec_find_byte(s@, pos as int, b) == Some(m as int)
            && pos <= m < s@.len()),
        r is None ==> spec_find_byte(s@, pos as int, b) is None,
        s@.len() <= usize::MAX,
{
    let mut p: usize = pos;
    while p < s.len()
        invariant
            pos <= p <= s@.len(),
            spec_find_byte(s@, pos as int, b) == spec_find_byte(s@, p as int, b),
        decreases s@.len() - p,
    {
        if s[p] == b {
            return Some(p);
        }
        p = p + 1;
    }
    None
}

/// Find the first occurrence of the two-byte sequence `": "` at or
/// after `pos`.
pub fn find_colon_space(s: &[u8], pos: usize) -> (r: Option<usize>)
    requires
        pos <= s@.len(),
    ensures
        (r matches Some(m) ==> spec_find_colon_space(s@, pos as int) == Some(m as int)
            && pos <= m && m + 1 < s@.len()),
        r is None ==> spec_find_colon_space(s@, pos as int) is None,
        s@.len() <= usize::MAX,
{
    let mut p: usize = pos;
    while p < s.len() && p + 1 < s.len()
        invariant
            pos <= p <= s@.len(),
            spec_find_colon_space(s@, pos as int) == spec_find_colon_space(s@, p as int),
        decreases s@.len() - p,
    {
        if s[p] == COLON && s[p + 1] == SPACE {
            return Some(p);
        }
        p = p + 1;
    }
    None
}

/// Compare two byte vectors for equality of their contents.
pub fn vec_eq(a: &Vec<u8>, b: &Vec<u8>) -> (r: bool)
    ensures
        r == (a@ == b@),
{
    if a.len() != b.len() {
        return false;
    }
    for i in 0..a.len()
        invariant
            a@.len() == b@.len(),
            forall|j: int| 0 <= j < i ==> a@[j] == b@[j],
    {
        if a[i] != b[i] {
            return false;
        }
    }
    proof {
        assert(a@ =~= b@);
    }
    true
}

} // verus!
