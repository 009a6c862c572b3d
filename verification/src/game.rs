//! Game segmentation. A game is everything strictly between an
//! `InitGame:` line and an end-of-game marker: either a `ShutdownGame:`
//! line followed by one or two dash-separator lines, or (after a crash)
//! a single bare separator line. Lines inside a game are classified as
//! kill events or ignored lines.

use vstd::prelude::*;

use crate::kill::{spec_parse_kill, Kill, KillModel};
use crate::scan::{find_byte, skip_dashes, spec_find_byte, spec_skip_dashes, DASH, NEWLINE};
use crate::time::{lemma_manytime1_maximal, manytime1, spec_manytime1};

verus! {

/// One classified line of a game log: a kill event, or a line the report
/// does not interpret further.
#[derive(PartialEq, Eq, Debug, Clone)]
pub enum GameLog {
    Kill(Kill),
    Ignored,
}

/// The mathematical value of a [`GameLog`].
pub ghost enum GameLogModel {
    Kill(KillModel),
    Ignored,
}

impl View for GameLog {
    type V = GameLogModel;

    open spec fn view(&self) -> GameLogModel {
        match self {
            GameLog::Kill(k) => GameLogModel::Kill(k@),
            GameLog::Ignored => GameLogModel::Ignored,
        }
    }
}

/// The entry sequence that a sequence of classified lines stands for.
pub open spec fn logs_view(l: Seq<GameLog>) -> Seq<GameLogModel> {
    l.map_values(|g: GameLog| g@)
}

/// The game sequence that a sequence of parsed games stands for.
pub open spec fn games_view(l: Seq<Game>) -> Seq<Seq<GameLogModel>> {
    l.map_values(|g: Game| g@)
}

/// All entries between one game's start and end markers, in log order.
#[derive(PartialEq, Debug)]
pub struct Game {
    logs: Vec<GameLog>,
}

impl View for Game {
    type V = Seq<GameLogModel>;

    closed spec fn view(&self) -> Seq<GameLogModel> {
        logs_view(self.logs@)
    }
}

/// The literal `"InitGame: "` occurs at `pos`.
pub open spec fn spec_init_tag(s: Seq<u8>, pos: int) -> bool {
    &&& pos + 10 <= s.len()
    &&& s[pos] == 73
    &&& s[pos + 1] == 110
    &&& s[pos + 2] == 105
    &&& s[pos + 3] == 116
    &&& s[pos + 4] == 71
    &&& s[pos + 5] == 97
    &&& s[pos + 6] == 109
    &&& s[pos + 7] == 101
    &&& s[pos + 8] == 58
    &&& s[pos + 9] == 32
}

/// The literal `"ShutdownGame:\n"` occurs at `pos`.
pub open spec fn spec_shutdown_tag(s: Seq<u8>, pos: int) -> bool {
    &&& pos + 14 <= s.len()
    &&& s[pos] == 83
    &&& s[pos + 1] == 104
    &&& s[pos + 2] == 117
    &&& s[pos + 3] == 116
    &&& s[pos + 4] == 100
    &&& s[pos + 5] == 111
    &&& s[pos + 6] == 119
    &&& s[pos + 7] == 110
    &&& s[pos + 8] == 71
    &&& s[pos + 9] == 97
    &&& s[pos + 10] == 109
    &&& s[pos + 11] == 101
    &&& s[pos + 12] == 58
    &&& s[pos + 13] == 10
}

/// The ignored-line rule: timestamp, then a line that is neither the
/// start of `"ShutdownGame:\n"` nor begins with a dash, skipped through
/// its newline. The negative lookahead keeps end-of-game markers from
/// being swallowed as ordinary content.
pub open spec fn spec_parse_ignored(s: Seq<u8>, pos: int) -> Option<int> {
    match spec_manytime1(s, pos) {
        None => None,
        Some(p1) => if spec_shutdown_tag(s, p1) || (p1 < s.len() && s[p1] == DASH) {
            None
        } else {
            match spec_find_byte(s, p1, NEWLINE) {
                None => None,
                Some(e) => Some(e + 1),
            }
        },
    }
}

/// Classify one line: the kill-line grammar first, the ignored-line rule
/// as the fallback.
pub open spec fn spec_parse_log(s: Seq<u8>, pos: int) -> Option<(int, GameLogModel)> {
    match spec_parse_kill(s, pos) {
        Some((p, k)) => Some((p, GameLogModel::Kill(k))),
        None => match spec_parse_ignored(s, pos) {
            Some(p) => Some((p, GameLogModel::Ignored)),
            None => None,
        },
    }
}

/// The game-start marker: timestamp, the literal `"InitGame: "`, and the
/// rest of the line (the init metadata) skipped through its newline.
pub open spec fn spec_parse_game_start(s: Seq<u8>, pos: int) -> Option<int> {
    match spec_manytime1(s, pos) {
        None => None,
        Some(p1) => if !spec_init_tag(s, p1) {
            None
        } else {
            match spec_find_byte(s, p1 + 10, NEWLINE) {
                None => None,
                Some(e) => Some(e + 1),
            }
        },
    }
}

/// A separator line: timestamp, one or more dashes, then a newline or the
/// end of the input.
pub open spec fn spec_parse_shutdown_line(s: Seq<u8>, pos: int) -> Option<int> {
    match spec_manytime1(s, pos) {
        None => None,
        Some(p1) => {
            let p2 = spec_skip_dashes(s, p1);
            if p2 == p1 {
                None
            } else if p2 < s.len() && s[p2] == NEWLINE {
                Some(p2 + 1)
            } else if p2 == s.len() {
                Some(p2)
            } else {
                None
            }
        },
    }
}

/// One separator line followed by an optional second one: normal
/// shutdowns write two, a crash-overwritten log or the end of the file
/// leaves only one.
pub open spec fn spec_parse_shutdown_line1(s: Seq<u8>, pos: int) -> Option<int> {
    match spec_parse_shutdown_line(s, pos) {
        None => None,
        Some(p1) => match spec_parse_shutdown_line(s, p1) {
            Some(p2) => Some(p2),
            None => Some(p1),
        },
    }
}

/// A full shutdown: timestamp, the literal `"ShutdownGame:\n"`, then one
/// or two separator lines.
pub open spec fn spec_parse_shutdown(s: Seq<u8>, pos: int) -> Option<int> {
    match spec_manytime1(s, pos) {
        None => None,
        Some(p1) => if !spec_shutdown_tag(s, p1) {
            None
        } else {
            spec_parse_shutdown_line1(s, p1 + 14)
        },
    }
}

/// The end-of-game marker: a full shutdown, or a bare separator line
/// alone (a log that ends right after a crash).
pub open spec fn spec_parse_game_end(s: Seq<u8>, pos: int) -> Option<int> {
    match spec_parse_shutdown(s, pos) {
        Some(p) => Some(p),
        None => spec_parse_shutdown_line(s, pos),
    }
}

/// Classify as many consecutive lines as match, stopping (without
/// consuming) at the first line that is neither a kill nor ignorable;
/// the stop position and the classified entries.
pub open spec fn spec_parse_logs(s: Seq<u8>, pos: int) -> (int, Seq<GameLogModel>)
    decreases s.len() - pos,
{
    match spec_parse_log(s, pos) {
        Some((p2, entry)) => if pos < p2 <= s.len() {
            let (e, rest) = spec_parse_logs(s, p2);
            (e, seq![entry] + rest)
        } else {
            (pos, Seq::empty())
        },
        None => (pos, Seq::empty()),
    }
}

/// One whole game: the start marker, the classified body, and the
/// end-of-game marker; the position after the marker and the body.
pub open spec fn spec_parse_game(s: Seq<u8>, pos: int) -> Option<(int, Seq<GameLogModel>)> {
    match spec_parse_game_start(s, pos) {
        None => None,
        Some(p1) => {
            let (p2, logs) = spec_parse_logs(s, p1);
            match spec_parse_game_end(s, p2) {
                None => None,
                Some(p3) => Some((p3, logs)),
            }
        },
    }
}

/// As many consecutive games as match, and the position where the first
/// failing game attempt started.
pub open spec fn spec_parse_games_list(s: Seq<u8>, pos: int) -> (int, Seq<Seq<GameLogModel>>)
    decreases s.len() - pos,
{
    match spec_parse_game(s, pos) {
        Some((p2, logs)) => if pos < p2 <= s.len() {
            let (e, rest) = spec_parse_games_list(s, p2);
            (e, seq![logs] + rest)
        } else {
            (pos, Seq::empty())
        },
        None => (pos, Seq::empty()),
    }
}

/// The whole document: an optional stray leading separator line, then at
/// least one game. `None` if no game could be parsed at all, and `None`
/// as well if a further game opened (its `InitGame:` line matched) but
/// failed before its end marker completed: a mid-game failure is fatal
/// to the whole document, never a silently truncated result. Trailing
/// input that opens no game is left unconsumed.
pub open spec fn spec_parse_games_inner(s: Seq<u8>) -> Option<(int, Seq<Seq<GameLogModel>>)> {
    let p0 = match spec_parse_shutdown_line(s, 0) {
        Some(p) => p,
        None => 0,
    };
    let (e, games) = spec_parse_games_list(s, p0);
    if games.len() == 0 {
        None
    } else if spec_parse_game_start(s, e) is Some {
        None
    } else {
        Some((e, games))
    }
}

/// The games of the whole document, without the final position.
pub open spec fn spec_parse_games(s: Seq<u8>) -> Option<Seq<Seq<GameLogModel>>> {
    match spec_parse_games_inner(s) {
        None => None,
        Some((e, games)) => Some(games),
    }
}

fn init_tag_at(s: &[u8], pos: usize) -> (r: Option<usize>)
    requires
        pos <= s@.len(),
    ensures
        r is Some <==> spec_init_tag(s@, pos as int),
        (r matches Some(p) ==> p == pos + 10 && p <= s@.len()),
{
    if s.len() - pos >= 10 && s[pos] == 73 && s[pos + 1] == 110 && s[pos + 2] == 105
        && s[pos + 3] == 116 && s[pos + 4] == 71 && s[pos + 5] == 97 && s[pos + 6] == 109
        && s[pos + 7] == 101 && s[pos + 8] == 58 && s[pos + 9] == 32 {
        Some(pos + 10)
    } else {
        None
    }
}

fn shutdown_tag_at(s: &[u8], pos: usize) -> (r: Option<usize>)
    requires
        pos <= s@.len(),
    ensures
        r is Some <==> spec_shutdown_tag(s@, pos as int),
        (r matches Some(p) ==> p == pos + 14 && p <= s@.len()),
{
    if s.len() - pos >= 14 && s[pos] == 83 && s[pos + 1] == 104 && s[pos + 2] == 117
        && s[pos + 3] == 116 && s[pos + 4] == 100 && s[pos + 5] == 111 && s[pos + 6] == 119
        && s[pos + 7] == 110 && s[pos + 8] == 71 && s[pos + 9] == 97 && s[pos + 10] == 109
        && s[pos + 11] == 101 && s[pos + 12] == 58 && s[pos + 13] == 10 {
        Some(pos + 14)
    } else {
        None
    }
}

impl GameLog {
    /// Classify one line: try the kill-line grammar, fall back to the
    /// ignored-line rule.
    fn parse_game_log(s: &[u8], pos: usize) -> (r: Option<(usize, GameLog)>)
        requires
            pos <= s@.len(),
        ensures
            (r matches Some((p, g)) ==> spec_parse_log(s@, pos as int) == Some((p as int, g@))
                && pos < p <= s@.len()),
            r is None ==> spec_parse_log(s@, pos as int) is None,
    {
        match Kill::parse_kill(s, pos) {
            Some((p, k)) => Some((p, GameLog::Kill(k))),
            None => match GameLog::parse_ignored(s, pos) {
                Some(p) => Some((p, GameLog::Ignored)),
                None => None,
            },
        }
    }

    /// The ignored-line rule.
    fn parse_ignored(s: &[u8], pos: usize) -> (r: Option<usize>)
        requires
            pos <= s@.len(),
        ensures
            (r matches Some(p) ==> spec_parse_ignored(s@, pos as int) == Some(p as int)
                && pos < p <= s@.len()),
            r is None ==> spec_parse_ignored(s@, pos as int) is None,
    {
        let p1: usize = match manytime1(s, pos) {
            Some(p) => p,
            None => { return None; },
        };
        proof {
            lemma_manytime1_maximal(s@, pos as int);
        }
        if shutdown_tag_at(s, p1).is_some() {
            return None;
        }
        if p1 < s.len() && s[p1] == DASH {
            return None;
        }
        match find_byte(s, p1, NEWLINE) {
            Some(e) => Some(e + 1),
            None => None,
        }
    }
}

/// The game-start marker.
fn parse_game_start(s: &[u8], pos: usize) -> (r: Option<usize>)
    requires
        pos <= s@.len(),
    ensures
        (r matches Some(p) ==> spec_parse_game_start(s@, pos as int) == Some(p as int)
            && pos < p <= s@.len()),
        r is None ==> spec_parse_game_start(s@, pos as int) is None,
{
    let p1: usize = match manytime1(s, pos) {
        Some(p) => p,
        None => { return None; },
    };
    proof {
        lemma_manytime1_maximal(s@, pos as int);
    }
    let p2: usize = match init_tag_at(s, p1) {
        Some(p) => p,
        None => { return None; },
    };
    match find_byte(s, p2, NEWLINE) {
        Some(e) => Some(e + 1),
        None => None,
    }
}

/// A separator line: timestamp, one or more dashes, then a newline or
/// the end of the input.
pub fn parse_shutdown_line(s: &[u8], pos: usize) -> (r: Option<usize>)
    requires
        pos <= s@.len(),
    ensures
        (r matches Some(p) ==> spec_parse_shutdown_line(s@, pos as int) == Some(p as int)
            && pos < p <= s@.len()),
        r is None ==> spec_parse_shutdown_line(s@, pos as int) is None,
{
    let p1: usize = match manytime1(s, pos) {
        Some(p) => p,
        None => { return None; },
    };
    proof {
        lemma_manytime1_maximal(s@, pos as int);
    }
    let p2: usize = skip_dashes(s, p1);
    if p2 == p1 {
        return None;
    }
    if p2 < s.len() {
        if s[p2] == NEWLINE {
            Some(p2 + 1)
        } else {
            None
        }
    } else {
        Some(p2)
    }
}

/// One separator line followed by an optional second one.
pub fn parse_shutdown_line1(s: &[u8], pos: usize) -> (r: Option<usize>)
    requires
        pos <= s@.len(),
    ensures
        (r matches Some(p) ==> spec_parse_shutdown_line1(s@, pos as int) == Some(p as int)
            && pos < p <= s@.len()),
        r is None ==> spec_parse_shutdown_line1(s@, pos as int) is None,
{
    let p1: usize = match parse_shutdown_line(s, pos) {
        Some(p) => p,
        None => { return None; },
    };
    match parse_shutdown_line(s, p1) {
        Some(p2) => Some(p2),
        None => Some(p1),
    }
}

/// A full shutdown: the `"ShutdownGame:\n"` line, then one or two
/// separator lines.
pub fn parse_shutdown(s: &[u8], pos: usize) -> (r: Option<usize>)
    requires
        pos <= s@.len(),
    ensures
        (r matches Some(p) ==> spec_parse_shutdown(s@, pos as int) == Some(p as int)
            && pos < p <= s@.len()),
        r is None ==> spec_parse_shutdown(s@, pos as int) is None,
{
    let p1: usize = match manytime1(s, pos) {
        Some(p) => p,
        None => { return None; },
    };
    proof {
        lemma_manytime1_maximal(s@, pos as int);
    }
    let p2: usize = match shutdown_tag_at(s, p1) {
        Some(p) => p,
        None => { return None; },
    };
    parse_shutdown_line1(s, p2)
}

/// The end-of-game marker: a full shutdown, or a bare separator line.
fn parse_game_end(s: &[u8], pos: usize) -> (r: Option<usize>)
    requires
        pos <= s@.len(),
    ensures
        (r matches Some(p) ==> spec_parse_game_end(s@, pos as int) == Some(p as int)
            && pos < p <= s@.len()),
        r is None ==> spec_parse_game_end(s@, pos as int) is None,
{
    match parse_shutdown(s, pos) {
        Some(p) => Some(p),
        None => parse_shutdown_line(s, pos),
    }
}

proof fn lemma_logs_view_push(l: Seq<GameLog>, g: GameLog)
    ensures
        logs_view(l.push(g)) =~= logs_view(l).push(g@),
{
}

proof fn lemma_games_view_push(l: Seq<Game>, g: Game)
    ensures
        games_view(l.push(g)) =~= games_view(l).push(g@),
{
}

impl Game {
    /// The entries of the game, in original log order.
    pub fn logs(&self) -> (r: &[GameLog])
        ensures
            logs_view(r@) == self@,
    {
        self.logs.as_slice()
    }

    /// One whole game: start marker, classified body, end-of-game marker.
    fn parse_game(s: &[u8], pos: usize) -> (r: Option<(usize, Game)>)
        requires
            pos <= s@.len(),
        ensures
            (r matches Some((p, g)) ==> spec_parse_game(s@, pos as int) == Some((p as int, g@))
                && pos < p <= s@.len()),
            r is None ==> spec_parse_game(s@, pos as int) is None,
    {
        let p1: usize = match parse_game_start(s, pos) {
            Some(p) => p,
            None => { return None; },
        };
        let mut p: usize = p1;
        let mut logs: Vec<GameLog> = Vec::new();
        loop
            invariant
                pos < p1 <= p <= s@.len(),
                spec_parse_logs(s@, p1 as int).0 == spec_parse_logs(s@, p as int).0,
                spec_parse_logs(s@, p1 as int).1 == logs_view(logs@) + spec_parse_logs(
                    s@,
                    p as int,
                ).1,
            ensures
                pos < p1 <= p <= s@.len(),
                spec_parse_log(s@, p as int) is None,
                spec_parse_logs(s@, p1 as int) == (p as int, logs_view(logs@)),
            decreases s@.len() - p,
        {
            match GameLog::parse_game_log(s, p) {
                Some((p2, entry)) => {
                    proof {
                        lemma_logs_view_push(logs@, entry);
                        assert(logs_view(logs@) + (seq![entry@] + spec_parse_logs(
                            s@,
                            p2 as int,
                        ).1) =~= logs_view(logs@.push(entry)) + spec_parse_logs(
                            s@,
                            p2 as int,
                        ).1);
                    }
                    logs.push(entry);
                    p = p2;
                },
                None => {
                    proof {
                        assert(spec_parse_logs(s@, p as int) == (p as int, Seq::<
                            GameLogModel,
                        >::empty()));
                        assert(logs_view(logs@) + Seq::<GameLogModel>::empty() =~= logs_view(
                            logs@,
                        ));
                    }
                    break;
                },
            }
        }
        match parse_game_end(s, p) {
            Some(e) => Some((e, Game { logs })),
            None => None,
        }
    }
}

/// Parse the whole document; the position of the unconsumed remainder
/// and the games. `None` if no game could be parsed, or if a game opened
/// after the last complete one but never reached its end marker.
pub fn parse_games_inner(s: &[u8]) -> (r: Option<(usize, Vec<Game>)>)
    ensures
        (r matches Some((e, games)) ==> spec_parse_games_inner(s@) == Some(
            (e as int, games_view(games@)),
        )),
        r is None ==> spec_parse_games_inner(s@) is None,
{
    let p0: usize = match parse_shutdown_line(s, 0) {
        Some(p) => p,
        None => 0,
    };
    let mut p: usize = p0;
    let mut games: Vec<Game> = Vec::new();
    loop
        invariant
            p0 <= p <= s@.len(),
            spec_parse_games_list(s@, p0 as int).0 == spec_parse_games_list(s@, p as int).0,
            spec_parse_games_list(s@, p0 as int).1 == games_view(games@) + spec_parse_games_list(
                s@,
                p as int,
            ).1,
        ensures
            p0 <= p <= s@.len(),
            spec_parse_games_list(s@, p0 as int) == (p as int, games_view(games@)),
        decreases s@.len() - p,
    {
        match Game::parse_game(s, p) {
            Some((p2, game)) => {
                proof {
                    lemma_games_view_push(games@, game);
                    assert(games_view(games@) + (seq![game@] + spec_parse_games_list(
                        s@,
                        p2 as int,
                    ).1) =~= games_view(games@.push(game)) + spec_parse_games_list(
                        s@,
                        p2 as int,
                    ).1);
                }
                games.push(game);
                p = p2;
            },
            None => {
                proof {
                    assert(spec_parse_games_list(s@, p as int) == (p as int, Seq::<
                        Seq<GameLogModel>,
                    >::empty()));
                    assert(games_view(games@) + Seq::<Seq<GameLogModel>>::empty() =~= games_view(
                        games@,
                    ));
                }
                break;
            },
        }
    }
    if games.len() == 0 {
        return None;
    }
    if parse_game_start(s, p).is_some() {
        return None;
    }
    Some((p, games))
}

/// Parse the whole document to its game sequence; `None` on any parse
/// failure: a document with no game at all, or one where a game opened
/// but failed before its end marker completed.
pub fn parse_games(s: &[u8]) -> (r: Option<Vec<Game>>)
    ensures
        (r matches Some(games) ==> spec_parse_games(s@) == Some(games_view(games@))),
        r is None ==> spec_parse_games(s@) is None,
{
    match parse_games_inner(s) {
        Some((_rest, games)) => Some(games),
        None => None,
    }
}

} // verus!
