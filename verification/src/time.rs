//! The timestamp scanner. Every log line begins with one or more time
//! tokens (runs of digits and colons), possibly preceded, separated and
//! followed by spaces; a line that was overwritten after a crash can carry
//! two timestamps in a row, which the scanner absorbs as well.

use vstd::prelude::*;

use crate::scan::{
    is_time_byte, skip_spaces, skip_timespace, spec_skip_spaces, spec_skip_timespace, COLON,
    DIGIT_NINE, DIGIT_ZERO, SPACE,
};

verus! {

/// The position just after the timestamps that prefix the line starting at
/// `pos`: leading spaces, then at least one time-token byte, then a greedy
/// run of time-token bytes and spaces (which covers several space-separated
/// time tokens and any trailing spaces). `None` if no time token is there.
pub open spec fn spec_manytime1(s: Seq<u8>, pos: int) -> Option<int> {
    let p = spec_skip_spaces(s, pos);
    if p < s.len() && is_time_byte(s[p]) {
        Some(spec_skip_timespace(s, p))
    } else {
        None
    }
}

/// Scan the timestamps that prefix the line starting at `pos` and return
/// the position of the unconsumed remainder; `None` if the line does not
/// begin with a time token.
pub fn manytime1(s: &[u8], pos: usize) -> (r: Option<usize>)
    requires
        pos <= s@.len(),
    ensures
        (r matches Some(p) ==> spec_manytime1(s@, pos as int) == Some(p as int)
            && pos <= p <= s@.len()),
        r is None ==> spec_manytime1(s@, pos as int) is None,
{
    let p: usize = skip_spaces(s, pos);
    if p < s.len() && (s[p] == COLON || (DIGIT_ZERO <= s[p] && s[p] <= DIGIT_NINE)) {
        Some(skip_timespace(s, p))
    } else {
        None
    }
}

proof fn lemma_skip_timespace_past(s: Seq<u8>, pos: int)
    requires
        0 <= pos <= s.len(),
    ensures
        pos <= spec_skip_timespace(s, pos) <= s.len(),
        ({
            let e = spec_skip_timespace(s, pos);
            e == s.len() || (!is_time_byte(s[e]) && s[e] != SPACE)
        }),
    decreases s.len() - pos,
{
    if pos < s.len() && (is_time_byte(s[pos]) || s[pos] == SPACE) {
        lemma_skip_timespace_past(s, pos + 1);
    }
}

/// A successful scan consumes at least one byte and stops only where no
/// further scan could start: the remainder is a strict suffix of the input,
/// and scanning it again immediately fails.
pub proof fn lemma_manytime1_maximal(s: Seq<u8>, pos: int)
    requires
        0 <= pos <= s.len(),
        spec_manytime1(s, pos) is Some,
    ensures
        (spec_manytime1(s, pos) matches Some(e) ==> pos < e <= s.len()),
        (spec_manytime1(s, pos) matches Some(e) ==> spec_manytime1(s, e) is None),
{
    let p = spec_skip_spaces(s, pos);
    lemma_skip_spaces_at_least(s, pos);
    let e = spec_skip_timespace(s, p);
    assert(spec_skip_timespace(s, p) == spec_skip_timespace(s, p + 1));
    lemma_skip_timespace_past(s, p + 1);
    assert(e == s.len() || (!is_time_byte(s[e]) && s[e] != SPACE));
    assert(spec_skip_spaces(s, e) == e);
}

proof fn lemma_skip_spaces_at_least(s: Seq<u8>, pos: int)
    requires
        0 <= pos <= s.len(),
    ensures
        pos <= spec_skip_spaces(s, pos) <= s.len(),
    decreases s.len() - pos,
{
    if pos < s.len() && s[pos] == SPACE {
        lemma_skip_spaces_at_least(s, pos + 1);
    }
}

/// The end of a nonempty run of time-token bytes alone (no spaces):
/// a single time token.
pub open spec fn spec_skip_time_bytes(s: Seq<u8>, pos: int) -> int
    decreases s.len() - pos,
{
    if pos < s.len() && is_time_byte(s[pos]) {
        spec_skip_time_bytes(s, pos + 1)
    } else {
        pos
    }
}

/// The written form of the grammar after its first token starts at
/// `pos`: consume the token, then as many space-separated further tokens
/// as there are, then any trailing spaces.
pub open spec fn spec_token_groups(s: Seq<u8>, pos: int) -> int
    decreases s.len() - pos,
{
    let p = spec_skip_spaces(s, pos);
    if p < s.len() && is_time_byte(s[p]) {
        let q = spec_skip_time_bytes(s, p);
        if pos < q && q <= s.len() {
            spec_token_groups(s, q)
        } else {
            p
        }
    } else {
        p
    }
}

/// The timestamp grammar written out as the log format describes it:
/// leading spaces, then one or more time tokens separated by spaces,
/// then trailing spaces.
pub open spec fn spec_manytime1_grammar(s: Seq<u8>, pos: int) -> Option<int> {
    let p = spec_skip_spaces(s, pos);
    if p < s.len() && is_time_byte(s[p]) {
        Some(spec_token_groups(s, p))
    } else {
        None
    }
}

proof fn lemma_skip_time_bytes_bounds(s: Seq<u8>, pos: int)
    requires
        0 <= pos <= s.len(),
    ensures
        pos <= spec_skip_time_bytes(s, pos) <= s.len(),
    decreases s.len() - pos,
{
    if pos < s.len() && is_time_byte(s[pos]) {
        lemma_skip_time_bytes_bounds(s, pos + 1);
    }
}

proof fn lemma_timespace_through_time_bytes(s: Seq<u8>, pos: int)
    requires
        0 <= pos <= s.len(),
    ensures
        spec_skip_timespace(s, pos) == spec_skip_timespace(s, spec_skip_time_bytes(s, pos)),
    decreases s.len() - pos,
{
    if pos < s.len() && is_time_byte(s[pos]) {
        lemma_timespace_through_time_bytes(s, pos + 1);
    }
}

proof fn lemma_timespace_through_spaces(s: Seq<u8>, pos: int)
    requires
        0 <= pos <= s.len(),
    ensures
        spec_skip_timespace(s, pos) == spec_skip_timespace(s, spec_skip_spaces(s, pos)),
    decreases s.len() - pos,
{
    if pos < s.len() && s[pos] == SPACE {
        lemma_timespace_through_spaces(s, pos + 1);
    }
}

proof fn lemma_timespace_is_token_groups(s: Seq<u8>, pos: int)
    requires
        0 <= pos < s.len(),
        is_time_byte(s[pos]),
    ensures
        spec_skip_timespace(s, pos) == spec_token_groups(s, pos),
    decreases s.len() - pos,
{
    assert(spec_skip_spaces(s, pos) == pos);
    let q = spec_skip_time_bytes(s, pos);
    lemma_skip_time_bytes_bounds(s, pos);
    assert(spec_skip_time_bytes(s, pos) == spec_skip_time_bytes(s, pos + 1));
    lemma_skip_time_bytes_bounds(s, pos + 1);
    lemma_timespace_through_time_bytes(s, pos);
    lemma_timespace_through_spaces(s, q);
    lemma_skip_spaces_at_least(s, q);
    let p2 = spec_skip_spaces(s, q);
    if p2 < s.len() && is_time_byte(s[p2]) {
        lemma_timespace_is_token_groups(s, p2);
        assert(spec_skip_spaces(s, p2) == p2);
        assert(spec_token_groups(s, q) == spec_token_groups(s, p2)) by {
            let q2 = spec_skip_time_bytes(s, p2);
            lemma_skip_time_bytes_bounds(s, p2);
            assert(spec_skip_time_bytes(s, p2) == spec_skip_time_bytes(s, p2 + 1));
            lemma_skip_time_bytes_bounds(s, p2 + 1);
        }
    } else {
        lemma_skip_spaces_past(s, q);
        assert(spec_skip_timespace(s, p2) == p2);
        assert(spec_token_groups(s, q) == p2);
    }
}

proof fn lemma_skip_spaces_past(s: Seq<u8>, pos: int)
    requires
        0 <= pos <= s.len(),
    ensures
        pos <= spec_skip_spaces(s, pos) <= s.len(),
        ({
            let e = spec_skip_spaces(s, pos);
            e == s.len() || s[e] != SPACE
        }),
    decreases s.len() - pos,
{
    if pos < s.len() && s[pos] == SPACE {
        lemma_skip_spaces_past(s, pos + 1);
    }
}

/// The greedy scan and the written grammar agree everywhere: consuming
/// leading spaces, a first time token, and then a greedy run of
/// time-token bytes and spaces recognizes exactly one or more
/// space-separated time tokens with their trailing spaces.
pub proof fn lemma_manytime1_matches_grammar(s: Seq<u8>, pos: int)
    requires
        0 <= pos <= s.len(),
    ensures
        spec_manytime1(s, pos) == spec_manytime1_grammar(s, pos),
{
    let p = spec_skip_spaces(s, pos);
    lemma_skip_spaces_at_least(s, pos);
    if p < s.len() && is_time_byte(s[p]) {
        lemma_timespace_is_token_groups(s, p);
    }
}

} // verus!
