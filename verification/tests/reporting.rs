use quake_report::game::parse_games;
use quake_report::kill::Kill;
use quake_report::report::{reports_for_games, GameReport};

fn one_game(body: &str) -> quake_report::game::Game {
    let doc = format!(" 0:00 InitGame: \\mapname\\q3dm17\n{} 9:59 ShutdownGame:\n 9:59 ----\n 9:59 ----\n", body);
    let mut games = parse_games(doc.as_bytes()).unwrap();
    assert_eq!(games.len(), 1);
    games.pop().unwrap()
}

#[test]
fn empty_game_aggregates_to_zero() {
    let game = one_game("");
    let report = GameReport::from_game(0, &game);
    assert_eq!(report.index, 0);
    assert_eq!(report.total_kills, 0);
    assert!(report.kills.is_empty());
    assert!(report.kills_by_means.is_empty());
}

#[test]
fn normal_kill_credits_killer() {
    let game = one_game(" 1:02 Kill: 2 3 7: Isgalamido killed Mocinha by MOD_ROCKET_SPLASH\n");
    let report = GameReport::from_game(0, &game);
    assert_eq!(report.total_kills, 1);
    assert_eq!(report.kills, vec![(b"Isgalamido".to_vec(), 1)]);
    assert_eq!(report.kills_by_means, vec![(b"MOD_ROCKET_SPLASH".to_vec(), 1)]);
}

#[test]
fn world_kill_charges_victim() {
    let game = one_game(" 1:02 Kill: 1022 2 22: <world> killed Isgalamido by MOD_TRIGGER_HURT\n");
    let report = GameReport::from_game(0, &game);
    assert_eq!(report.total_kills, 1);
    // the victim is charged -1 and "<world>" never appears in the map
    assert_eq!(report.kills, vec![(b"Isgalamido".to_vec(), -1)]);
    assert_eq!(report.kills_by_means, vec![(b"MOD_TRIGGER_HURT".to_vec(), 1)]);
}

#[test]
fn self_kill_charges_victim() {
    let game = one_game(" 1:02 Kill: 2 2 7: Mocinha killed Mocinha by MOD_ROCKET_SPLASH\n");
    let report = GameReport::from_game(0, &game);
    assert_eq!(report.total_kills, 1);
    assert_eq!(report.kills, vec![(b"Mocinha".to_vec(), -1)]);
}

#[test]
fn total_kills_equals_sum_of_means() {
    let body = " 1:02 Kill: 2 3 7: A killed B by MOD_ROCKET\n 1:03 Kill: 2 3 7: A killed C by MOD_ROCKET\n 1:04 Kill: 1022 3 22: <world> killed A by MOD_TRIGGER_HURT\n 1:05 Kill: 3 2 6: B killed A by MOD_RAILGUN\n 1:06 ClientBegin: 4\n";
    let game = one_game(body);
    let report = GameReport::from_game(0, &game);
    assert_eq!(report.total_kills, 4);
    let means_sum: usize = report.kills_by_means.iter().map(|p| p.1).sum();
    assert_eq!(report.total_kills, means_sum);
    assert_eq!(
        report.kills_by_means,
        vec![
            (b"MOD_ROCKET".to_vec(), 2),
            (b"MOD_TRIGGER_HURT".to_vec(), 1),
            (b"MOD_RAILGUN".to_vec(), 1),
        ]
    );
    // A: +1 +1 -1 = 1, B: +1
    assert_eq!(report.kills, vec![(b"A".to_vec(), 1), (b"B".to_vec(), 1)]);
}

#[test]
fn reaggregation_gives_identical_report() {
    let body = " 1:02 Kill: 2 3 7: A killed B by MOD_ROCKET\n 1:04 Kill: 1022 3 22: <world> killed A by MOD_TRIGGER_HURT\n";
    let game = one_game(body);
    let first = GameReport::from_game(3, &game);
    let second = GameReport::from_game(3, &game);
    assert_eq!(first, second);
}

#[test]
fn reports_are_indexed_by_position() {
    let mut doc = String::new();
    for _ in 0..3 {
        doc.push_str(" 0:00 InitGame: \\m\\x\n");
        doc.push_str(" 1:02 Kill: 2 3 7: A killed B by MOD_ROCKET\n");
        doc.push_str(" 9:59 ShutdownGame:\n 9:59 ----\n 9:59 ----\n");
    }
    let games = parse_games(doc.as_bytes()).unwrap();
    let reports = reports_for_games(&games);
    assert_eq!(reports.len(), 3);
    for (i, report) in reports.iter().enumerate() {
        assert_eq!(report.index, i);
        assert_eq!(report.total_kills, 1);
    }
}

#[test]
fn killer_predicates() {
    let world = Kill::new(b"<world>".to_vec(), b"Isgalamido".to_vec(), b"MOD_FALLING".to_vec());
    assert!(world.killer_is_world());
    assert!(!world.killer_is_victim());

    let own = Kill::new(b"Mocinha".to_vec(), b"Mocinha".to_vec(), b"MOD_ROCKET_SPLASH".to_vec());
    assert!(!own.killer_is_world());
    assert!(own.killer_is_victim());

    let plain = Kill::new(b"A".to_vec(), b"B".to_vec(), b"MOD_RAILGUN".to_vec());
    assert!(!plain.killer_is_world());
    assert!(!plain.killer_is_victim());
}
