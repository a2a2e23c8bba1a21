use quake3a::{CauseOfDeath, KillEntry, MatchScoreboard, PlayerScore};
use std::collections::BTreeSet;

fn set(items: &[(CauseOfDeath, usize)]) -> BTreeSet<(CauseOfDeath, usize)> {
    items.iter().copied().collect()
}

fn player<'a>(scoreboard: &'a MatchScoreboard, name: &str) -> &'a PlayerScore {
    let found: Vec<&PlayerScore> = scoreboard
        .player_scores()
        .into_iter()
        .filter(|(other, _)| *other == name)
        .map(|(_, score)| score)
        .collect();
    assert_eq!(found.len(), 1);
    found[0]
}

#[test]
fn record_world_kill() {
    let mut scoreboard = MatchScoreboard::new();
    scoreboard.record(KillEntry::new(
        "<world>",
        "Isgalamido",
        CauseOfDeath::MOD_TRIGGER_HURT,
    ));

    assert_eq!(scoreboard.total_kills(), 1);

    let mut players = scoreboard.player_scores();
    assert_eq!(players.len(), 1);

    let (name, player) = players.pop().unwrap();
    assert_eq!(name, "Isgalamido");
    assert_eq!(player.n_deaths(), 1);
    assert_eq!(
        player.deaths().into_iter().collect::<BTreeSet<_>>(),
        set(&[(CauseOfDeath::MOD_TRIGGER_HURT, 1)]),
    );
    assert_eq!(player.n_kills(), 0);
    assert_eq!(player.kills().into_iter().collect::<BTreeSet<_>>(), BTreeSet::new());
    assert_eq!(player.n_suicides(), 0);
    assert_eq!(player.score(), -1);
}

#[test]
fn record_suicide() {
    let mut scoreboard = MatchScoreboard::new();
    scoreboard.record(KillEntry::new(
        "Isgalamido",
        "Isgalamido",
        CauseOfDeath::MOD_ROCKET_SPLASH,
    ));

    assert_eq!(scoreboard.total_kills(), 1);

    let mut players = scoreboard.player_scores();
    assert_eq!(players.len(), 1);

    let (name, player) = players.pop().unwrap();
    assert_eq!(name, "Isgalamido");
    assert_eq!(player.n_deaths(), 1);
    assert_eq!(
        player.deaths().into_iter().collect::<BTreeSet<_>>(),
        set(&[(CauseOfDeath::MOD_ROCKET_SPLASH, 1)]),
    );
    assert_eq!(player.n_kills(), 1);
    assert_eq!(
        player.kills().into_iter().collect::<BTreeSet<_>>(),
        set(&[(CauseOfDeath::MOD_ROCKET_SPLASH, 1)]),
    );
    assert_eq!(player.n_suicides(), 1);
    assert_eq!(player.score(), -1);
}

#[test]
fn record_player_kill() {
    let mut scoreboard = MatchScoreboard::new();
    scoreboard.record(KillEntry::new(
        "Dono da Bola",
        "Zeh",
        CauseOfDeath::MOD_ROCKET,
    ));

    assert_eq!(scoreboard.total_kills(), 1);

    let mut players = scoreboard.player_scores();
    players.sort_by_key(|&(name, _)| name);
    assert_eq!(players.len(), 2);

    let (name, player) = players.pop().unwrap();
    assert_eq!(name, "Zeh");
    assert_eq!(player.n_deaths(), 1);
    assert_eq!(
        player.deaths().into_iter().collect::<BTreeSet<_>>(),
        set(&[(CauseOfDeath::MOD_ROCKET, 1)]),
    );
    assert_eq!(player.n_kills(), 0);
    assert_eq!(player.kills().into_iter().collect::<BTreeSet<_>>(), BTreeSet::new());
    assert_eq!(player.n_suicides(), 0);
    assert_eq!(player.score(), 0);

    let (name, player) = players.pop().unwrap();
    assert_eq!(name, "Dono da Bola");
    assert_eq!(player.n_deaths(), 0);
    assert_eq!(player.deaths().into_iter().collect::<BTreeSet<_>>(), BTreeSet::new(),);
    assert_eq!(player.n_kills(), 1);
    assert_eq!(
        player.kills().into_iter().collect::<BTreeSet<_>>(),
        set(&[(CauseOfDeath::MOD_ROCKET, 1)]),
    );
    assert_eq!(player.n_suicides(), 0);
    assert_eq!(player.score(), 1);
}

#[test]
fn blank_scoreboard_is_empty() {
    let scoreboard = MatchScoreboard::new();
    assert_eq!(scoreboard.total_kills(), 0);
    assert!(scoreboard.player_scores().is_empty());

    let scoreboard = MatchScoreboard::default();
    assert_eq!(scoreboard.total_kills(), 0);
    assert!(scoreboard.player_scores().is_empty());
}

#[test]
fn blank_player_score_is_empty() {
    let score = PlayerScore::default();
    assert_eq!(score.n_kills(), 0);
    assert_eq!(score.n_deaths(), 0);
    assert_eq!(score.n_suicides(), 0);
    assert_eq!(score.score(), 0);
    assert!(score.kills().is_empty());
    assert!(score.deaths().is_empty());
}

#[test]
fn world_gets_no_entry() {
    let mut scoreboard = MatchScoreboard::new();
    scoreboard.record(KillEntry::new("<world>", "Zeh", CauseOfDeath::MOD_FALLING));
    scoreboard.record(KillEntry::new("<world>", "Zeh", CauseOfDeath::MOD_LAVA));

    let names: Vec<&str> = scoreboard.player_scores().into_iter().map(|(name, _)| name).collect();
    assert_eq!(names, vec!["Zeh"]);
    assert_eq!(player(&scoreboard, "Zeh").score(), -2);
    assert_eq!(scoreboard.total_kills(), 2);
}

#[test]
fn world_as_victim_is_a_player() {
    // The sentinel stands for the environment only where it kills.
    let mut scoreboard = MatchScoreboard::new();
    scoreboard.record(KillEntry::new("Zeh", "<world>", CauseOfDeath::MOD_RAILGUN));
    scoreboard.record(KillEntry::new("<world>", "<world>", CauseOfDeath::MOD_CRUSH));

    assert_eq!(scoreboard.total_kills(), 2);
    assert_eq!(scoreboard.player_scores().len(), 2);
    let world = player(&scoreboard, "<world>");
    assert_eq!(world.n_kills(), 0);
    assert_eq!(world.n_suicides(), 0);
    assert_eq!(world.n_deaths(), 2);
    assert_eq!(world.score(), -1);
    assert_eq!(player(&scoreboard, "Zeh").score(), 1);
}

#[test]
fn sentinel_is_matched_exactly() {
    let mut scoreboard = MatchScoreboard::new();
    scoreboard.record(KillEntry::new("<World>", "Zeh", CauseOfDeath::MOD_RAILGUN));
    scoreboard.record(KillEntry::new("world", "Zeh", CauseOfDeath::MOD_RAILGUN));

    assert_eq!(scoreboard.player_scores().len(), 3);
    assert_eq!(player(&scoreboard, "<World>").score(), 1);
    assert_eq!(player(&scoreboard, "world").score(), 1);
    assert_eq!(player(&scoreboard, "Zeh").score(), 0);
}

#[test]
fn empty_names_are_players() {
    let mut scoreboard = MatchScoreboard::new();
    scoreboard.record(KillEntry::new("", "a b", CauseOfDeath::MOD_GAUNTLET));
    scoreboard.record(KillEntry::new("", "", CauseOfDeath::MOD_SUICIDE));

    assert_eq!(scoreboard.player_scores().len(), 2);
    let nameless = player(&scoreboard, "");
    assert_eq!(nameless.n_kills(), 2);
    assert_eq!(nameless.n_suicides(), 1);
    assert_eq!(nameless.n_deaths(), 1);
    assert_eq!(nameless.score(), 0);
    assert_eq!(player(&scoreboard, "a b").n_deaths(), 1);
}

fn sample() -> Vec<(&'static str, &'static str, CauseOfDeath)> {
    vec![
        ("<world>", "Isgalamido", CauseOfDeath::MOD_TRIGGER_HURT),
        ("Isgalamido", "Mocinha", CauseOfDeath::MOD_ROCKET),
        ("Isgalamido", "Isgalamido", CauseOfDeath::MOD_ROCKET_SPLASH),
        ("Zeh", "Isgalamido", CauseOfDeath::MOD_RAILGUN),
        ("Isgalamido", "Zeh", CauseOfDeath::MOD_ROCKET),
        ("<world>", "Zeh", CauseOfDeath::MOD_FALLING),
        ("Isgalamido", "Dono da Bola", CauseOfDeath::MOD_ROCKET_SPLASH),
        ("Mocinha", "Mocinha", CauseOfDeath::MOD_SUICIDE),
        ("<world>", "Isgalamido", CauseOfDeath::MOD_TRIGGER_HURT),
        ("Dono da Bola", "Isgalamido", CauseOfDeath::MOD_RAILGUN),
    ]
}

#[test]
fn total_kills_counts_every_record() {
    let mut scoreboard = MatchScoreboard::new();
    for (n, (player, killed, cause)) in sample().into_iter().enumerate() {
        assert_eq!(scoreboard.total_kills(), n);
        scoreboard.record(KillEntry::new(player, killed, cause));
        assert_eq!(scoreboard.total_kills(), n + 1);
    }
    assert_eq!(scoreboard.total_kills(), 10);
}

#[test]
fn totals_agree_with_counts_after_every_record() {
    let mut scoreboard = MatchScoreboard::new();
    for (player, killed, cause) in sample() {
        scoreboard.record(KillEntry::new(player, killed, cause));
        for (_, score) in scoreboard.player_scores() {
            let kills: usize = score.kills().iter().map(|(_, n)| n).sum();
            let deaths: usize = score.deaths().iter().map(|(_, n)| n).sum();
            assert_eq!(kills, score.n_kills());
            assert_eq!(deaths, score.n_deaths());
            assert!(score.kills().iter().all(|(_, n)| *n > 0));
            assert!(score.deaths().iter().all(|(_, n)| *n > 0));
        }
    }
}

#[test]
fn scores_of_a_match() {
    let mut scoreboard = MatchScoreboard::new();
    for (player, killed, cause) in sample() {
        scoreboard.record(KillEntry::new(player, killed, cause));
    }

    assert_eq!(scoreboard.player_scores().len(), 4);

    // Three kills of others, one suicide, two deaths by the world.
    let isgalamido = player(&scoreboard, "Isgalamido");
    assert_eq!(isgalamido.n_kills(), 4);
    assert_eq!(isgalamido.n_suicides(), 1);
    assert_eq!(isgalamido.n_deaths(), 5);
    assert_eq!(isgalamido.score(), 3 - 1 - 2);
    assert_eq!(
        isgalamido.kills(),
        vec![(CauseOfDeath::MOD_ROCKET_SPLASH, 2), (CauseOfDeath::MOD_ROCKET, 2)]
    );
    assert_eq!(
        isgalamido.deaths(),
        vec![
            (CauseOfDeath::MOD_RAILGUN, 2),
            (CauseOfDeath::MOD_ROCKET_SPLASH, 1),
            (CauseOfDeath::MOD_TRIGGER_HURT, 2),
        ]
    );

    let mocinha = player(&scoreboard, "Mocinha");
    assert_eq!(mocinha.n_kills(), 1);
    assert_eq!(mocinha.n_suicides(), 1);
    assert_eq!(mocinha.n_deaths(), 2);
    assert_eq!(mocinha.score(), -1);

    let zeh = player(&scoreboard, "Zeh");
    assert_eq!(zeh.n_kills(), 1);
    assert_eq!(zeh.n_suicides(), 0);
    assert_eq!(zeh.n_deaths(), 2);
    assert_eq!(zeh.score(), 1 - 1);

    let dono = player(&scoreboard, "Dono da Bola");
    assert_eq!(dono.n_kills(), 1);
    assert_eq!(dono.n_deaths(), 1);
    assert_eq!(dono.score(), 1);
}

#[test]
fn score_is_kills_less_penalties() {
    let mut scoreboard = MatchScoreboard::new();
    let kills = sample();
    for (player, killed, cause) in kills.iter() {
        scoreboard.record(KillEntry::new(player, killed, *cause));
    }
    for (name, score) in scoreboard.player_scores() {
        let points = kills
            .iter()
            .filter(|(player, killed, _)| *player == name && player != killed)
            .count() as isize;
        let suicides = kills
            .iter()
            .filter(|(player, killed, _)| *player == name && player == killed)
            .count() as isize;
        let world_deaths = kills
            .iter()
            .filter(|(player, killed, _)| *killed == name && *player == "<world>")
            .count() as isize;
        assert_eq!(score.score(), points - suicides - world_deaths);
        assert_eq!(score.n_suicides() as isize, suicides);
        assert_eq!(score.n_kills() as isize, points + suicides);
    }
}

#[test]
fn kills_and_deaths_follow_the_vocabulary() {
    let mut scoreboard = MatchScoreboard::new();
    scoreboard.record(KillEntry::new("a", "b", CauseOfDeath::MOD_WATER));
    scoreboard.record(KillEntry::new("a", "b", CauseOfDeath::MOD_BFG_SPLASH));
    scoreboard.record(KillEntry::new("a", "b", CauseOfDeath::MOD_LAVA));
    scoreboard.record(KillEntry::new("a", "b", CauseOfDeath::MOD_BFG_SPLASH));

    let expected = vec![
        (CauseOfDeath::MOD_BFG_SPLASH, 2),
        (CauseOfDeath::MOD_LAVA, 1),
        (CauseOfDeath::MOD_WATER, 1),
    ];
    assert_eq!(player(&scoreboard, "a").kills(), expected);
    assert_eq!(player(&scoreboard, "a").deaths(), vec![]);
    assert_eq!(player(&scoreboard, "b").deaths(), expected);
    assert_eq!(player(&scoreboard, "b").kills(), vec![]);
}

#[test]
fn kill_entry_keeps_its_parts() {
    let entry = KillEntry::new("Dono da Bola", "Zeh", CauseOfDeath::MOD_ROCKET);
    assert_eq!(entry.player(), "Dono da Bola");
    assert_eq!(entry.killed(), "Zeh");
    assert_eq!(entry.cause(), CauseOfDeath::MOD_ROCKET);
    assert_eq!(
        entry.into_parts(),
        (String::from("Dono da Bola"), String::from("Zeh"), CauseOfDeath::MOD_ROCKET)
    );
}
