//! Kill events and the kill-line grammar. A kill line has the shape
//! `{timestamp} Kill: {ids}: {killer} killed {victim} by {weapon}\n`;
//! the numeric id fields are skipped, the three name tokens are extracted
//! verbatim.

use vstd::prelude::*;
use vstd::slice::{slice_subrange, slice_to_vec};

use crate::scan::{find_byte, find_colon_space, spec_find_byte, spec_find_colon_space, NEWLINE,
    SPACE};
use crate::time::{manytime1, lemma_manytime1_maximal, spec_manytime1};

verus! {

/// A single recorded elimination: who killed whom, and by what means.
/// The fields hold the byte tokens exactly as they appear in the log.
#[derive(PartialEq, Eq, Debug, Clone)]
pub struct Kill {
    pub killer: Vec<u8>,
    pub victim: Vec<u8>,
    pub weapon: Vec<u8>,
}

/// The mathematical value of a [`Kill`]: its three tokens as byte
/// sequences.
pub ghost struct KillModel {
    pub killer: Seq<u8>,
    pub victim: Seq<u8>,
    pub weapon: Seq<u8>,
}

impl View for Kill {
    type V = KillModel;

    open spec fn view(&self) -> KillModel {
        KillModel { killer: self.killer@, victim: self.victim@, weapon: self.weapon@ }
    }
}

/// The byte sequence of the token `"<world>"`, the killer recorded for an
/// environment death (falling, lava, trigger hurt, ...).
pub open spec fn world_token() -> Seq<u8> {
    seq![60u8, 119u8, 111u8, 114u8, 108u8, 100u8, 62u8]
}

/// The kill was inflicted by the environment rather than a player.
pub open spec fn spec_killer_is_world(k: KillModel) -> bool {
    k.killer == world_token()
}

/// The killer and the victim are the same player (a self-kill).
pub open spec fn spec_killer_is_victim(k: KillModel) -> bool {
    k.killer == k.victim
}

/// The literal `"Kill: "` occurs at `pos`.
pub open spec fn spec_kill_tag(s: Seq<u8>, pos: int) -> bool {
    &&& pos + 6 <= s.len()
    &&& s[pos] == 75
    &&& s[pos + 1] == 105
    &&& s[pos + 2] == 108
    &&& s[pos + 3] == 108
    &&& s[pos + 4] == 58
    &&& s[pos + 5] == 32
}

/// The literal `" killed "` occurs at `pos`.
pub open spec fn spec_killed_tag(s: Seq<u8>, pos: int) -> bool {
    &&& pos + 8 <= s.len()
    &&& s[pos] == 32
    &&& s[pos + 1] == 107
    &&& s[pos + 2] == 105
    &&& s[pos + 3] == 108
    &&& s[pos + 4] == 108
    &&& s[pos + 5] == 101
    &&& s[pos + 6] == 100
    &&& s[pos + 7] == 32
}

/// The literal `" by "` occurs at `pos`.
pub open spec fn spec_by_tag(s: Seq<u8>, pos: int) -> bool {
    &&& pos + 4 <= s.len()
    &&& s[pos] == 32
    &&& s[pos + 1] == 98
    &&& s[pos + 2] == 121
    &&& s[pos + 3] == 32
}

/// The kill-line grammar: timestamp, the literal `"Kill: "`, skipped text
/// through the next `": "`, the killer token up to a space, the literal
/// `" killed "`, the victim token up to a space, the literal `" by "`, the
/// weapon token up to a newline, and the newline itself. On a match, the
/// position just past the newline and the extracted tokens.
pub open spec fn spec_parse_kill(s: Seq<u8>, pos: int) -> Option<(int, KillModel)> {
    match spec_manytime1(s, pos) {
        None => None,
        Some(p1) => if !spec_kill_tag(s, p1) {
            None
        } else {
            match spec_find_colon_space(s, p1 + 6) {
                None => None,
                Some(m) => match spec_find_byte(s, m + 2, SPACE) {
                    None => None,
                    Some(ke) => if !spec_killed_tag(s, ke) {
                        None
                    } else {
                        match spec_find_byte(s, ke + 8, SPACE) {
                            None => None,
                            Some(ve) => if !spec_by_tag(s, ve) {
                                None
                            } else {
                                match spec_find_byte(s, ve + 4, NEWLINE) {
                                    None => None,
                                    Some(we) => Some(
                                        (
                                            we + 1,
                                            KillModel {
                                                killer: s.subrange(m + 2, ke),
                                                victim: s.subrange(ke + 8, ve),
                                                weapon: s.subrange(ve + 4, we),
                                            },
                                        ),
                                    ),
                                }
                            },
                        }
                    },
                },
            }
        },
    }
}

fn kill_tag_at(s: &[u8], pos: usize) -> (r: Option<usize>)
    requires
        pos <= s@.len(),
    ensures
        r is Some <==> spec_kill_tag(s@, pos as int),
        (r matches Some(p) ==> p == pos + 6 && p <= s@.len()),
{
    if s.len() - pos >= 6 && s[pos] == 75 && s[pos + 1] == 105 && s[pos + 2] == 108
        && s[pos + 3] == 108 && s[pos + 4] == 58 && s[pos + 5] == 32 {
        Some(pos + 6)
    } else {
        None
    }
}

fn killed_tag_at(s: &[u8], pos: usize) -> (r: Option<usize>)
    requires
        pos <= s@.len(),
    ensures
        r is Some <==> spec_killed_tag(s@, pos as int),
        (r matches Some(p) ==> p == pos + 8 && p <= s@.len()),
{
    if s.len() - pos >= 8 && s[pos] == 32 && s[pos + 1] == 107 && s[pos + 2] == 105
        && s[pos + 3] == 108 && s[pos + 4] == 108 && s[pos + 5] == 101 && s[pos + 6] == 100
        && s[pos + 7] == 32 {
        Some(pos + 8)
    } else {
        None
    }
}

fn by_tag_at(s: &[u8], pos: usize) -> (r: Option<usize>)
    requires
        pos <= s@.len(),
    ensures
        r is Some <==> spec_by_tag(s@, pos as int),
        (r matches Some(p) ==> p == pos + 4 && p <= s@.len()),
{
    if s.len() - pos >= 4 && s[pos] == 32 && s[pos + 1] == 98 && s[pos + 2] == 121
        && s[pos + 3] == 32 {
        Some(pos + 4)
    } else {
        None
    }
}

impl Kill {
    /// Assemble a kill event from its three tokens.
    pub fn new(killer: Vec<u8>, victim: Vec<u8>, weapon: Vec<u8>) -> (r: Kill)
        ensures
            r@ == (KillModel { killer: killer@, victim: victim@, weapon: weapon@ }),
    {
        Kill { killer, victim, weapon }
    }

    /// The kill was inflicted by the environment (the `"<world>"` killer).
    pub fn killer_is_world(&self) -> (r: bool)
        ensures
            r == spec_killer_is_world(self@),
    {
        let w: Vec<u8> = world_vec();
        crate::scan::vec_eq(&self.killer, &w)
    }

    /// The killer and the victim are the same player, as with one's own
    /// splash damage. Recorded differently than a kill by `"<world>"`.
    pub fn killer_is_victim(&self) -> (r: bool)
        ensures
            r == spec_killer_is_victim(self@),
    {
        crate::scan::vec_eq(&self.killer, &self.victim)
    }

    /// Parse a kill line starting at `pos`; on a match, the position just
    /// past its newline and the extracted event.
    pub fn parse_kill(s: &[u8], pos: usize) -> (r: Option<(usize, Kill)>)
        requires
            pos <= s@.len(),
        ensures
            (r matches Some((p, k)) ==> spec_parse_kill(s@, pos as int) == Some((p as int, k@))
                && pos < p <= s@.len()),
            r is None ==> spec_parse_kill(s@, pos as int) is None,
    {
        let p1: usize = match manytime1(s, pos) {
            Some(p) => p,
            None => { return None; },
        };
        proof {
            lemma_manytime1_maximal(s@, pos as int);
        }
        let p2: usize = match kill_tag_at(s, p1) {
            Some(p) => p,
            None => { return None; },
        };
        let m: usize = match find_colon_space(s, p2) {
            Some(m) => m,
            None => { return None; },
        };
        let ks: usize = m + 2;
        let ke: usize = match find_byte(s, ks, SPACE) {
            Some(x) => x,
            None => { return None; },
        };
        let killer: Vec<u8> = slice_to_vec(slice_subrange(s, ks, ke));
        let vs: usize = match killed_tag_at(s, ke) {
            Some(p) => p,
            None => { return None; },
        };
        let ve: usize = match find_byte(s, vs, SPACE) {
            Some(x) => x,
            None => { return None; },
        };
        let victim: Vec<u8> = slice_to_vec(slice_subrange(s, vs, ve));
        let ws: usize = match by_tag_at(s, ve) {
            Some(p) => p,
            None => { return None; },
        };
        let we: usize = match find_byte(s, ws, NEWLINE) {
            Some(x) => x,
            None => { return None; },
        };
        let weapon: Vec<u8> = slice_to_vec(slice_subrange(s, ws, we));
        Some((we + 1, Kill::new(killer, victim, weapon)))
    }
}

/// The token `"<world>"` as a byte vector.
fn world_vec() -> (r: Vec<u8>)
    ensures
        r@ == world_token(),
{
    let mut r: Vec<u8> = Vec::new();
    r.push(60);
    r.push(119);
    r.push(111);
    r.push(114);
    r.push(108);
    r.push(100);
    r.push(62);
    proof {
        assert(r@ =~= world_token());
    }
    r
}

} // verus!
