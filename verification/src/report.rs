//! Per-game report aggregation. A game's kill events are reduced to a
//! total kill count, a per-player kill delta (self-kills and environment
//! kills are charged to the victim as `-1`, ordinary kills credited to
//! the killer as `+1`), and a per-weapon frequency count. The two
//! mappings are association lists in first-occurrence order, so the
//! whole report is a function of the game's entry sequence.

use vstd::prelude::*;
use vstd::pervasive::VecAdditionalExecFns;
use vstd::slice::slice_to_vec;

use crate::game::{Game, GameLog, GameLogModel};
use crate::kill::{spec_killer_is_victim, spec_killer_is_world, KillModel};
use crate::scan::vec_eq;

verus! {

/// The mathematical value of a [`GameReport`]: the two mappings as
/// association lists of byte-sequence keys.
pub ghost struct ReportModel {
    pub index: int,
    pub total_kills: int,
    pub kills: Seq<(Seq<u8>, int)>,
    pub kills_by_means: Seq<(Seq<u8>, int)>,
}

/// Add `d` to the entry of `key` in an association list, treating a
/// missing entry as `0` and appending it; existing entries keep their
/// order.
pub open spec fn bump(l: Seq<(Seq<u8>, int)>, key: Seq<u8>, d: int) -> Seq<(Seq<u8>, int)>
    decreases l.len(),
{
    if l.len() == 0 {
        seq![(key, d)]
    } else if l[0].0 == key {
        seq![(l[0].0, l[0].1 + d)] + l.drop_first()
    } else {
        seq![l[0]] + bump(l.drop_first(), key, d)
    }
}

/// Whether a kill entry is charged to its victim (an environment kill or
/// a self-kill) instead of being credited to its killer.
pub open spec fn charges_victim(k: KillModel) -> bool {
    spec_killer_is_world(k) || spec_killer_is_victim(k)
}

/// The report of a game's entry sequence, built entry by entry: every
/// kill raises `total_kills` and its weapon's count by one; a self-kill
/// or world kill charges the victim `-1`, any other kill credits the
/// killer `+1`; ignored entries contribute nothing.
pub open spec fn spec_aggregate(index: int, logs: Seq<GameLogModel>) -> ReportModel
    decreases logs.len(),
{
    if logs.len() == 0 {
        ReportModel {
            index,
            total_kills: 0,
            kills: Seq::empty(),
            kills_by_means: Seq::empty(),
        }
    } else {
        let prev = spec_aggregate(index, logs.drop_last());
        match logs.last() {
            GameLogModel::Kill(k) => ReportModel {
                index,
                total_kills: prev.total_kills + 1,
                kills: if charges_victim(k) {
                    bump(prev.kills, k.victim, -1)
                } else {
                    bump(prev.kills, k.killer, 1)
                },
                kills_by_means: bump(prev.kills_by_means, k.weapon, 1),
            },
            GameLogModel::Ignored => prev,
        }
    }
}

/// The sum of the values of an association list.
pub open spec fn seq_sum(l: Seq<(Seq<u8>, int)>) -> int
    decreases l.len(),
{
    if l.len() == 0 {
        0
    } else {
        l[0].1 + seq_sum(l.drop_first())
    }
}

/// The association list that a kills vector stands for.
pub open spec fn kills_pairs_view(l: Seq<(Vec<u8>, i128)>) -> Seq<(Seq<u8>, int)> {
    l.map_values(|p: (Vec<u8>, i128)| (p.0@, p.1 as int))
}

/// The association list that a kills-by-means vector stands for.
pub open spec fn means_pairs_view(l: Seq<(Vec<u8>, usize)>) -> Seq<(Seq<u8>, int)> {
    l.map_values(|p: (Vec<u8>, usize)| (p.0@, p.1 as int))
}

/// The per-game kill statistics. `kills` maps each charged or credited
/// player to a signed delta; `kills_by_means` maps each weapon token to
/// the number of kills recorded with it. Both are association lists with
/// one entry per key, in first-occurrence order.
#[derive(PartialEq, Eq, Debug)]
pub struct GameReport {
    pub index: usize,
    pub total_kills: usize,
    pub kills: Vec<(Vec<u8>, i128)>,
    pub kills_by_means: Vec<(Vec<u8>, usize)>,
}

impl View for GameReport {
    type V = ReportModel;

    open spec fn view(&self) -> ReportModel {
        ReportModel {
            index: self.index as int,
            total_kills: self.total_kills as int,
            kills: kills_pairs_view(self.kills@),
            kills_by_means: means_pairs_view(self.kills_by_means@),
        }
    }
}

proof fn lemma_bump_sum(l: Seq<(Seq<u8>, int)>, key: Seq<u8>, d: int)
    ensures
        seq_sum(bump(l, key, d)) == seq_sum(l) + d,
    decreases l.len(),
{
    if l.len() == 0 {
        assert(bump(l, key, d).drop_first() =~= Seq::<(Seq<u8>, int)>::empty());
        assert(seq_sum(Seq::<(Seq<u8>, int)>::empty()) == 0);
        assert(bump(l, key, d)[0] == (key, d));
    } else if l[0].0 == key {
        assert(bump(l, key, d).drop_first() =~= l.drop_first());
    } else {
        lemma_bump_sum(l.drop_first(), key, d);
        assert(bump(l, key, d).drop_first() =~= bump(l.drop_first(), key, d));
    }
}

proof fn lemma_bump_bound(l: Seq<(Seq<u8>, int)>, key: Seq<u8>, d: int, b: int)
    requires
        0 <= b,
        -1 <= d <= 1,
        forall|j: int| 0 <= j < l.len() ==> -b <= (#[trigger] l[j]).1 <= b,
    ensures
        forall|j: int| 0 <= j < bump(l, key, d).len() ==> -(b + 1) <= (#[trigger] bump(
            l,
            key,
            d,
        )[j]).1 <= b + 1,
    decreases l.len(),
{
    if l.len() == 0 {
    } else if l[0].0 == key {
    } else {
        assert(forall|j: int|
            0 <= j < l.drop_first().len() ==> -b <= (#[trigger] l.drop_first()[j]).1 <= b);
        lemma_bump_bound(l.drop_first(), key, d, b);
        assert forall|j: int| 0 <= j < bump(l, key, d).len() implies -(b + 1) <= (
        #[trigger] bump(l, key, d)[j]).1 <= b + 1 by {
            if j > 0 {
                assert(bump(l, key, d)[j] == bump(l.drop_first(), key, d)[j - 1]);
            }
        }
    }
}

proof fn lemma_bump_found(l: Seq<(Seq<u8>, int)>, key: Seq<u8>, d: int, j: int)
    requires
        0 <= j < l.len(),
        l[j].0 == key,
        forall|i: int| 0 <= i < j ==> (#[trigger] l[i]).0 != key,
    ensures
        bump(l, key, d) =~= l.update(j, (key, l[j].1 + d)),
    decreases j,
{
    if j == 0 {
    } else {
        assert(l[0].0 != key);
        assert(forall|i: int|
            0 <= i < j - 1 ==> (#[trigger] l.drop_first()[i]).0 != key && l.drop_first()[i]
                == l[i + 1]);
        lemma_bump_found(l.drop_first(), key, d, j - 1);
        assert(bump(l, key, d) =~= seq![l[0]] + l.drop_first().update(j - 1, (key, l[j].1 + d)));
    }
}

proof fn lemma_bump_absent(l: Seq<(Seq<u8>, int)>, key: Seq<u8>, d: int)
    requires
        forall|i: int| 0 <= i < l.len() ==> (#[trigger] l[i]).0 != key,
    ensures
        bump(l, key, d) =~= l.push((key, d)),
    decreases l.len(),
{
    if l.len() == 0 {
    } else {
        assert(forall|i: int|
            0 <= i < l.drop_first().len() ==> (#[trigger] l.drop_first()[i]).0 != key);
        lemma_bump_absent(l.drop_first(), key, d);
    }
}

/// Copy the bytes of a token into a fresh vector.
fn copy_bytes(v: &Vec<u8>) -> (r: Vec<u8>)
    ensures
        r@ == v@,
{
    slice_to_vec(v.as_slice())
}

fn bump_kills(l: &mut Vec<(Vec<u8>, i128)>, key: Vec<u8>, d: i128)
    requires
        -1 <= d <= 1,
        forall|j: int| 0 <= j < old(l)@.len() ==> i128::MIN < (#[trigger] old(l)@[j]).1
            < i128::MAX,
    ensures
        kills_pairs_view(final(l)@) == bump(kills_pairs_view(old(l)@), key@, d as int),
{
    let mut j: usize = 0;
    while j < l.len()
        invariant
            0 <= j <= l@.len(),
            -1 <= d <= 1,
            l@ == old(l)@,
            forall|j: int| 0 <= j < old(l)@.len() ==> i128::MIN < (#[trigger] old(l)@[j]).1
                < i128::MAX,
            forall|i: int| 0 <= i < j ==> (#[trigger] l@[i]).0@ != key@,
        decreases l@.len() - j,
    {
        if vec_eq(&l[j].0, &key) {
            let v: i128 = l[j].1;
            proof {
                assert(v == old(l)@[j as int].1);
            }
            l.set(j, (key, v + d));
            proof {
                lemma_bump_found(kills_pairs_view(old(l)@), key@, d as int, j as int);
                assert(kills_pairs_view(l@) =~= kills_pairs_view(old(l)@).update(
                    j as int,
                    (key@, old(l)@[j as int].1 + d),
                ));
            }
            return;
        }
        j += 1;
    }
    l.push((key, d));
    proof {
        lemma_bump_absent(kills_pairs_view(old(l)@), key@, d as int);
        assert(kills_pairs_view(l@) =~= kills_pairs_view(old(l)@).push((key@, d as int)));
    }
}

fn bump_means(l: &mut Vec<(Vec<u8>, usize)>, key: Vec<u8>)
    requires
        forall|j: int| 0 <= j < old(l)@.len() ==> (#[trigger] old(l)@[j]).1 < usize::MAX,
    ensures
        means_pairs_view(final(l)@) == bump(means_pairs_view(old(l)@), key@, 1),
{
    let mut j: usize = 0;
    while j < l.len()
        invariant
            0 <= j <= l@.len(),
            l@ == old(l)@,
            forall|j: int| 0 <= j < old(l)@.len() ==> (#[trigger] old(l)@[j]).1 < usize::MAX,
            forall|i: int| 0 <= i < j ==> (#[trigger] l@[i]).0@ != key@,
        decreases l@.len() - j,
    {
        if vec_eq(&l[j].0, &key) {
            let v: usize = l[j].1;
            proof {
                assert(v == old(l)@[j as int].1);
            }
            l.set(j, (key, v + 1));
            proof {
                lemma_bump_found(means_pairs_view(old(l)@), key@, 1, j as int);
                assert(means_pairs_view(l@) =~= means_pairs_view(old(l)@).update(
                    j as int,
                    (key@, old(l)@[j as int].1 + 1),
                ));
            }
            return;
        }
        j += 1;
    }
    l.push((key, 1));
    proof {
        lemma_bump_absent(means_pairs_view(old(l)@), key@, 1);
        assert(means_pairs_view(l@) =~= means_pairs_view(old(l)@).push((key@, 1)));
    }
}

impl GameReport {
    /// Aggregate one game into its report. The result is exactly the
    /// model that `spec_aggregate` assigns to the game's entries, and
    /// its total kill count equals the sum of its per-weapon counts.
    pub fn from_game(index: usize, game: &Game) -> (r: GameReport)
        ensures
            r@ == spec_aggregate(index as int, game@),
            r@.total_kills == seq_sum(r@.kills_by_means),
    {
        let logs: &[GameLog] = game.logs();
        let ghost lm: Seq<GameLogModel> = game@;
        let n: usize = logs.len();
        let mut total: usize = 0;
        let mut kills: Vec<(Vec<u8>, i128)> = Vec::new();
        let mut kbm: Vec<(Vec<u8>, usize)> = Vec::new();
        let mut i: usize = 0;
        proof {
            assert(lm.take(0) =~= Seq::<GameLogModel>::empty());
        }
        while i < n
            invariant
                0 <= i <= n,
                n == lm.len(),
                crate::game::logs_view(logs@) == lm,
                total <= i,
                total as int == spec_aggregate(index as int, lm.take(i as int)).total_kills,
                kills_pairs_view(kills@) == spec_aggregate(index as int, lm.take(i as int)).kills,
                means_pairs_view(kbm@) == spec_aggregate(
                    index as int,
                    lm.take(i as int),
                ).kills_by_means,
                forall|j: int| 0 <= j < kills@.len() ==> -(i as int) <= (
                #[trigger] kills@[j]).1 <= i as int,
                forall|j: int| 0 <= j < kbm@.len() ==> (#[trigger] kbm@[j]).1 <= i,
            decreases n - i,
        {
            proof {
                assert(lm.take((i + 1) as int).drop_last() =~= lm.take(i as int));
                assert(lm.take((i + 1) as int).last() == lm[i as int]);
            }
            match &logs[i] {
                GameLog::Kill(kill) => {
                    total = total + 1;
                    let w: bool = kill.killer_is_world();
                    let sv: bool = kill.killer_is_victim();
                    let ghost pre_kills: Seq<(Seq<u8>, int)> = kills_pairs_view(kills@);
                    let ghost pre_kbm: Seq<(Seq<u8>, int)> = means_pairs_view(kbm@);
                    let ghost keyg: Seq<u8> = if w || sv {
                        kill@.victim
                    } else {
                        kill@.killer
                    };
                    let ghost dg: int = if w || sv {
                        -1
                    } else {
                        1
                    };
                    proof {
                        lemma_bump_bound(pre_kills, keyg, dg, i as int);
                        lemma_bump_bound(pre_kbm, kill@.weapon, 1, i as int);
                    }
                    if w || sv {
                        let key: Vec<u8> = copy_bytes(&kill.victim);
                        bump_kills(&mut kills, key, -1);
                    } else {
                        let key: Vec<u8> = copy_bytes(&kill.killer);
                        bump_kills(&mut kills, key, 1);
                    }
                    let wkey: Vec<u8> = copy_bytes(&kill.weapon);
                    bump_means(&mut kbm, wkey);
                    proof {
                        assert(kills_pairs_view(kills@) == bump(pre_kills, keyg, dg));
                        assert(means_pairs_view(kbm@) == bump(pre_kbm, kill@.weapon, 1));
                        assert forall|q: int| 0 <= q < kills@.len() implies -(i + 1) <= (
                        #[trigger] kills@[q]).1 <= i + 1 by {
                            assert(kills_pairs_view(kills@)[q] == (kills@[q].0@, kills@[q].1 as int));
                        }
                        assert forall|q: int| 0 <= q < kbm@.len() implies (#[trigger] kbm@[q]).1 <= i
                            + 1 by {
                            assert(means_pairs_view(kbm@)[q] == (kbm@[q].0@, kbm@[q].1 as int));
                        }
                    }
                },
                GameLog::Ignored => {},
            }
            i = i + 1;
        }
        proof {
            assert(lm.take(n as int) =~= lm);
            lemma_aggregate_index(index as int, lm);
            lemma_total_is_sum_of_means(index as int, lm);
        }
        GameReport { index, total_kills: total, kills, kills_by_means: kbm }
    }
}

/// Aggregate every parsed game into its report, indices assigned by
/// position in the sequence.
pub fn reports_for_games(games: &Vec<Game>) -> (r: Vec<GameReport>)
    ensures
        r@.len() == games@.len(),
        forall|i: int| 0 <= i < games@.len() ==> (#[trigger] r@[i])@ == spec_aggregate(
            i,
            games@[i]@,
        ),
{
    let mut r: Vec<GameReport> = Vec::new();
    let n: usize = games.len();
    let mut i: usize = 0;
    while i < n
        invariant
            0 <= i <= n,
            n == games@.len(),
            r@.len() == i,
            forall|q: int| 0 <= q < i ==> (#[trigger] r@[q])@ == spec_aggregate(q, games@[q]@),
        decreases n - i,
    {
        let rep: GameReport = GameReport::from_game(i, &games[i]);
        r.push(rep);
        i = i + 1;
    }
    r
}

proof fn lemma_aggregate_index(index: int, logs: Seq<GameLogModel>)
    ensures
        spec_aggregate(index, logs).index == index,
    decreases logs.len(),
{
    if logs.len() > 0 {
        lemma_aggregate_index(index, logs.drop_last());
    }
}

/// Aggregation is a pure function of the game's entries and its index:
/// any two reports derived from the same game at the same position are
/// identical.
pub proof fn lemma_aggregate_pure(
    index: int,
    logs: Seq<GameLogModel>,
    a: ReportModel,
    b: ReportModel,
)
    requires
        a == spec_aggregate(index, logs),
        b == spec_aggregate(index, logs),
    ensures
        a == b,
{
}

/// In every report, the total kill count equals the sum of the
/// per-weapon counts: both rise by exactly one for each kill entry.
pub proof fn lemma_total_is_sum_of_means(index: int, logs: Seq<GameLogModel>)
    ensures
        spec_aggregate(index, logs).total_kills == seq_sum(
            spec_aggregate(index, logs).kills_by_means,
        ),
    decreases logs.len(),
{
    if logs.len() == 0 {
    } else {
        lemma_total_is_sum_of_means(index, logs.drop_last());
        match logs.last() {
            GameLogModel::Kill(k) => {
                lemma_bump_sum(
                    spec_aggregate(index, logs.drop_last()).kills_by_means,
                    k.weapon,
                    1,
                );
            },
            GameLogModel::Ignored => {},
        }
    }
}

/// The value of `key` in an association list, a missing entry reading
/// as `0`.
pub open spec fn lookup(l: Seq<(Seq<u8>, int)>, key: Seq<u8>) -> int
    decreases l.len(),
{
    if l.len() == 0 {
        0
    } else if l[0].0 == key {
        l[0].1
    } else {
        lookup(l.drop_first(), key)
    }
}

/// The association list has an entry for `key`.
pub open spec fn has_key(l: Seq<(Seq<u8>, int)>, key: Seq<u8>) -> bool {
    exists|i: int| 0 <= i < l.len() && l[i].0 == key
}

/// The association list holds at most one entry per key.
pub open spec fn keys_distinct(l: Seq<(Seq<u8>, int)>) -> bool {
    forall|i: int, j: int| 0 <= i < j < l.len() ==> l[i].0 != l[j].0
}

/// The number of kill entries in a game.
pub open spec fn kill_count(logs: Seq<GameLogModel>) -> int
    decreases logs.len(),
{
    if logs.len() == 0 {
        0
    } else {
        kill_count(logs.drop_last()) + match logs.last() {
            GameLogModel::Kill(k) => 1int,
            GameLogModel::Ignored => 0int,
        }
    }
}

/// The number of kill entries recorded with the given weapon.
pub open spec fn weapon_count(logs: Seq<GameLogModel>, weapon: Seq<u8>) -> int
    decreases logs.len(),
{
    if logs.len() == 0 {
        0
    } else {
        weapon_count(logs.drop_last(), weapon) + match logs.last() {
            GameLogModel::Kill(k) => if k.weapon == weapon {
                1int
            } else {
                0int
            },
            GameLogModel::Ignored => 0int,
        }
    }
}

/// The net score of a player over a game: one credit for every kill they
/// inflicted on someone else, one charge for every self-kill or
/// environment kill that took them.
pub open spec fn player_delta(logs: Seq<GameLogModel>, player: Seq<u8>) -> int
    decreases logs.len(),
{
    if logs.len() == 0 {
        0
    } else {
        player_delta(logs.drop_last(), player) + match logs.last() {
            GameLogModel::Kill(k) => if charges_victim(k) {
                if k.victim == player {
                    -1int
                } else {
                    0int
                }
            } else {
                if k.killer == player {
                    1int
                } else {
                    0int
                }
            },
            GameLogModel::Ignored => 0int,
        }
    }
}

/// Some kill entry of the game charged or credited the given player.
pub open spec fn player_touched(logs: Seq<GameLogModel>, player: Seq<u8>) -> bool
    decreases logs.len(),
{
    if logs.len() == 0 {
        false
    } else {
        player_touched(logs.drop_last(), player) || match logs.last() {
            GameLogModel::Kill(k) => if charges_victim(k) {
                k.victim == player
            } else {
                k.killer == player
            },
            GameLogModel::Ignored => false,
        }
    }
}

proof fn lemma_has_key_cons(l: Seq<(Seq<u8>, int)>, key: Seq<u8>)
    requires
        l.len() > 0,
    ensures
        has_key(l, key) == (l[0].0 == key || has_key(l.drop_first(), key)),
{
    if l[0].0 == key {
        assert(has_key(l, key));
    } else if has_key(l.drop_first(), key) {
        let i = choose|i: int| 0 <= i < l.drop_first().len() && l.drop_first()[i].0 == key;
        assert(l[i + 1].0 == key);
        assert(has_key(l, key));
    } else if has_key(l, key) {
        let i = choose|i: int| 0 <= i < l.len() && l[i].0 == key;
        assert(i > 0);
        assert(l.drop_first()[i - 1].0 == key);
        assert(false);
    }
}

proof fn lemma_bump_lookup(l: Seq<(Seq<u8>, int)>, key: Seq<u8>, d: int, k: Seq<u8>)
    ensures
        lookup(bump(l, key, d), k) == lookup(l, k) + if k == key {
            d
        } else {
            0int
        },
        has_key(bump(l, key, d), k) == (has_key(l, k) || k == key),
    decreases l.len(),
{
    let b = bump(l, key, d);
    if l.len() == 0 {
        assert(b[0] == (key, d));
        assert(b.drop_first() =~= Seq::<(Seq<u8>, int)>::empty());
        assert(lookup(Seq::<(Seq<u8>, int)>::empty(), k) == 0);
        assert(lookup(b, k) == if b[0].0 == k { b[0].1 } else { lookup(b.drop_first(), k) });
        lemma_has_key_cons(b, k);
        assert(!has_key(l, k));
        assert(!has_key(b.drop_first(), k));
    } else if l[0].0 == key {
        assert(b[0] == (l[0].0, l[0].1 + d));
        assert(b.drop_first() =~= l.drop_first());
        assert(lookup(b, k) == if b[0].0 == k { b[0].1 } else { lookup(l.drop_first(), k) });
        assert(lookup(l, k) == if l[0].0 == k { l[0].1 } else { lookup(l.drop_first(), k) });
        lemma_has_key_cons(b, k);
        lemma_has_key_cons(l, k);
    } else {
        assert(b[0] == l[0]);
        assert(b.drop_first() =~= bump(l.drop_first(), key, d));
        lemma_bump_lookup(l.drop_first(), key, d, k);
        assert(lookup(b, k) == if b[0].0 == k { b[0].1 } else { lookup(bump(l.drop_first(), key, d), k) });
        assert(lookup(l, k) == if l[0].0 == k { l[0].1 } else { lookup(l.drop_first(), k) });
        lemma_has_key_cons(b, k);
        lemma_has_key_cons(l, k);
    }
}

proof fn lemma_bump_distinct(l: Seq<(Seq<u8>, int)>, key: Seq<u8>, d: int)
    requires
        keys_distinct(l),
    ensures
        keys_distinct(bump(l, key, d)),
{
    if has_key(l, key) {
        let j = choose|j: int| 0 <= j < l.len() && l[j].0 == key;
        assert(forall|i: int| 0 <= i < j ==> (#[trigger] l[i]).0 != key);
        lemma_bump_found(l, key, d, j);
    } else {
        assert(forall|i: int| 0 <= i < l.len() ==> (#[trigger] l[i]).0 != key);
        lemma_bump_absent(l, key, d);
    }
}

/// A report counts exactly the kill entries of its game: `total_kills`
/// is their number.
pub proof fn lemma_total_counts_kills(index: int, logs: Seq<GameLogModel>)
    ensures
        spec_aggregate(index, logs).total_kills == kill_count(logs),
    decreases logs.len(),
{
    if logs.len() > 0 {
        lemma_total_counts_kills(index, logs.drop_last());
    }
}

/// Each weapon is counted exactly: its entry holds the number of kill
/// entries recorded with it, it is listed exactly when that number is
/// positive, and the number is never negative.
pub proof fn lemma_weapon_count(index: int, logs: Seq<GameLogModel>, weapon: Seq<u8>)
    ensures
        lookup(spec_aggregate(index, logs).kills_by_means, weapon) == weapon_count(logs, weapon),
        has_key(spec_aggregate(index, logs).kills_by_means, weapon) == (weapon_count(logs, weapon)
            > 0),
        weapon_count(logs, weapon) >= 0,
    decreases logs.len(),
{
    if logs.len() > 0 {
        lemma_weapon_count(index, logs.drop_last(), weapon);
        match logs.last() {
            GameLogModel::Kill(k) => {
                lemma_bump_lookup(
                    spec_aggregate(index, logs.drop_last()).kills_by_means,
                    k.weapon,
                    1,
                    weapon,
                );
            },
            GameLogModel::Ignored => {},
        }
    }
}

/// Each player is scored exactly: their entry holds their kills on
/// others minus the self-kills and environment kills that took them, and
/// they are listed exactly when some kill entry touched them. In
/// particular `"<world>"` is never listed on account of its kills.
pub proof fn lemma_player_delta(index: int, logs: Seq<GameLogModel>, player: Seq<u8>)
    ensures
        lookup(spec_aggregate(index, logs).kills, player) == player_delta(logs, player),
        has_key(spec_aggregate(index, logs).kills, player) == player_touched(logs, player),
    decreases logs.len(),
{
    if logs.len() > 0 {
        lemma_player_delta(index, logs.drop_last(), player);
        match logs.last() {
            GameLogModel::Kill(k) => {
                if charges_victim(k) {
                    lemma_bump_lookup(
                        spec_aggregate(index, logs.drop_last()).kills,
                        k.victim,
                        -1,
                        player,
                    );
                } else {
                    lemma_bump_lookup(
                        spec_aggregate(index, logs.drop_last()).kills,
                        k.killer,
                        1,
                        player,
                    );
                }
            },
            GameLogModel::Ignored => {},
        }
    }
}

/// A report's association lists are mappings: they hold at most one
/// entry per player and per weapon.
pub proof fn lemma_report_keys_unique(index: int, logs: Seq<GameLogModel>)
    ensures
        keys_distinct(spec_aggregate(index, logs).kills),
        keys_distinct(spec_aggregate(index, logs).kills_by_means),
    decreases logs.len(),
{
    if logs.len() == 0 {
    } else {
        lemma_report_keys_unique(index, logs.drop_last());
        match logs.last() {
            GameLogModel::Kill(k) => {
                let prev = spec_aggregate(index, logs.drop_last());
                if charges_victim(k) {
                    lemma_bump_distinct(prev.kills, k.victim, -1);
                } else {
                    lemma_bump_distinct(prev.kills, k.killer, 1);
                }
                lemma_bump_distinct(prev.kills_by_means, k.weapon, 1);
            },
            GameLogModel::Ignored => {},
        }
    }
}

} // verus!
