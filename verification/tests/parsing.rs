use quake_report::game::{parse_games, parse_games_inner, parse_shutdown, parse_shutdown_line1,
    GameLog};
use quake_report::kill::Kill;
use quake_report::time::manytime1;

#[test]
fn test_manytime() {
    let i = b"26  0:00";
    assert_eq!(manytime1(i, 0), Some(i.len()));
}

#[test]
fn manytime_rejects_plain_text() {
    assert_eq!(manytime1(b"InitGame: stuff", 0), None);
    assert_eq!(manytime1(b"", 0), None);
    assert_eq!(manytime1(b"   ", 0), None);
}

#[test]
fn manytime_stops_before_content() {
    let i = b" 21:42 Kill: 1022";
    // the scanner consumes " 21:42 " and leaves the rest
    assert_eq!(manytime1(i, 0), Some(7));
}

#[test]
fn test_kill_parser() {
    let i = b" 21:42 Kill: 1022 2 22: <world> killed Isgalamido by MOD_TRIGGER_HURT\n";
    let answer = Kill::new(
        b"<world>".to_vec(),
        b"Isgalamido".to_vec(),
        b"MOD_TRIGGER_HURT".to_vec(),
    );
    assert_eq!(Kill::parse_kill(i, 0), Some((i.len(), answer)));
}

#[test]
fn kill_parser_rejects_malformed_lines() {
    // no "Kill: " literal after the timestamp
    assert_eq!(Kill::parse_kill(b" 21:42 Item: 1022 2 22: x\n", 0), None);
    // no newline at the end
    assert_eq!(Kill::parse_kill(b" 21:42 Kill: 1 2 3: a killed b by W", 0), None);
    // no timestamp at all
    assert_eq!(Kill::parse_kill(b"Kill: 1 2 3: a killed b by W\n", 0), None);
}

#[test]
fn test_shutdown_lines1() {
    let i = b"26  0:00 ------------------------------------------------------------\n";
    assert_eq!(parse_shutdown_line1(i, 0), Some(i.len()));

    let i = b"20:37 ------------------------------------------------------------\n";
    assert_eq!(parse_shutdown_line1(i, 0), Some(i.len()));
}

#[test]
fn test_shutdown() {
    let i = b"12:13 ShutdownGame:\n 12:13 ------------------------------------------------------------\n 12:13 ------------------------------------------------------------\n";
    assert_eq!(parse_shutdown(i, 0), Some(i.len()));
}

#[test]
fn test_parse_game() {
    let i = " 0:00 ------------------------------------------------------------\n 0:00 InitGame: \\sv_floodProtect\\1\\sv_maxPing\\0\\sv_minPing\\0\\sv_maxRate\\10000\\sv_minRate\\0\\sv_hostname\\Code Miner Server\\g_gametype\\0\\sv_privateClients\\2\\sv_maxclients\\16\\sv_allowDownload\\0\\dmflags\\0\\fraglimit\\20\\timelimit\\15\\g_maxGameClients\\0\\capturelimit\\8\\version\\ioq3 1.36 linux-x86_64 Apr 12 2009\\protocol\\68\\mapname\\q3dm17\\gamename\\baseq3\\g_needpass\\0\n15:00 Exit: Timelimit hit.\n20:34 ClientConnect: 2\n20:34 ClientUserinfoChanged: 2 n\\Isgalamido\\t\\0\\model\\xian/default\\hmodel\\xian/default\\g_redteam\\\\g_blueteam\\\\c1\\4\\c2\\5\\hc\\100\\w\\0\\l\\0\\tt\\0\\tl\\0\n20:37 ClientUserinfoChanged: 2 n\\Isgalamido\\t\\0\\model\\uriel/zael\\hmodel\\uriel/zael\\g_redteam\\\\g_blueteam\\\\c1\\5\\c2\\5\\hc\\100\\w\\0\\l\\0\\tt\\0\\tl\\0\n20:37 ClientBegin: 2\n20:37 ShutdownGame:\n20:37 ------------------------------------------------------------\n20:37 ------------------------------------------------------------\n";
    let (rest, games) = parse_games_inner(i.as_bytes()).unwrap();
    assert_eq!(rest, i.len());
    assert_eq!(games.len(), 1);
    assert_eq!(games[0].logs(), &vec![GameLog::Ignored; 5][..]);
}

#[test]
fn test_full() {
    // a reference document with 21 games, each opened by an InitGame: marker
    let mut doc = String::new();
    doc.push_str(" 0:00 ------------------------------------------------------------\n");
    for _ in 0..21 {
        doc.push_str(" 0:00 InitGame: \\sv_floodProtect\\1\\mapname\\q3dm17\\gamename\\baseq3\n");
        doc.push_str("15:00 Exit: Timelimit hit.\n");
        doc.push_str(" 21:42 Kill: 1022 2 22: <world> killed Isgalamido by MOD_TRIGGER_HURT\n");
        doc.push_str("20:37 ShutdownGame:\n");
        doc.push_str("20:37 ------------------------------------------------------------\n");
        doc.push_str("20:37 ------------------------------------------------------------\n");
    }
    let (_rest, games) = parse_games_inner(doc.as_bytes()).unwrap();
    assert_eq!(games.len(), 21);
}

#[test]
fn single_separator_closes_game() {
    // a log that crashes right after a game: no ShutdownGame: marker, one
    // bare separator line, no trailing newline
    let i = " 0:00 InitGame: \\mapname\\q3dm17\n 0:15 ClientConnect: 2\n 1:00 ------------------------------------------------------------";
    let games = parse_games(i.as_bytes()).unwrap();
    assert_eq!(games.len(), 1);
    assert_eq!(games[0].logs(), &[GameLog::Ignored]);
}

#[test]
fn kill_lines_are_extracted_in_game() {
    let i = " 0:00 InitGame: \\mapname\\q3dm17\n 1:02 Kill: 2 3 7: Isgalamido killed Mocinha by MOD_ROCKET_SPLASH\n 1:10 ClientBegin: 2\n 1:30 ShutdownGame:\n 1:30 ----\n";
    let games = parse_games(i.as_bytes()).unwrap();
    assert_eq!(games.len(), 1);
    let logs = games[0].logs();
    assert_eq!(logs.len(), 2);
    let expected = Kill::new(
        b"Isgalamido".to_vec(),
        b"Mocinha".to_vec(),
        b"MOD_ROCKET_SPLASH".to_vec(),
    );
    assert_eq!(logs[0], GameLog::Kill(expected));
    assert_eq!(logs[1], GameLog::Ignored);
}

#[test]
fn document_without_games_fails() {
    assert!(parse_games(b"").is_none());
    assert!(parse_games(b"no timestamps here\n").is_none());
    // a lone separator line holds no game
    assert!(parse_games(b" 0:00 ----------\n").is_none());
}

#[test]
fn unterminated_game_fails() {
    // InitGame: with body lines but no shutdown or separator at the end
    let i = " 0:00 InitGame: \\mapname\\q3dm17\n 0:15 ClientConnect: 2\n";
    assert!(parse_games(i.as_bytes()).is_none());
}

#[test]
fn mid_game_failure_fails_whole_document() {
    // one complete game, then a game that opens but never reaches an end
    // marker: the earlier game is not reported, the whole document fails
    let i = " 0:00 InitGame: \\m\\x\n 0:30 ShutdownGame:\n 0:30 ----\n 0:30 ----\n 0:40 InitGame: \\m\\x\n 0:45 ClientConnect: 2\n";
    assert!(parse_games(i.as_bytes()).is_none());

    // the same with two complete games first
    let mut doc = String::new();
    for _ in 0..2 {
        doc.push_str(" 0:00 InitGame: \\m\\x\n 0:30 ShutdownGame:\n 0:30 ----\n 0:30 ----\n");
    }
    doc.push_str(" 0:40 InitGame: \\m\\x\n 0:45 ClientConnect: 2\n");
    assert!(parse_games(doc.as_bytes()).is_none());
}

#[test]
fn trailing_garbage_is_left_unconsumed() {
    let i = " 0:00 InitGame: \\m\\x\n 0:30 ShutdownGame:\n 0:30 ----\nleftover";
    let (rest, games) = parse_games_inner(i.as_bytes()).unwrap();
    assert_eq!(games.len(), 1);
    assert_eq!(&i.as_bytes()[rest..], b"leftover");
}
