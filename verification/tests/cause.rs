use quake3a::cause::CAUSE_COUNT;
use quake3a::CauseOfDeath;

const ALL: [(CauseOfDeath, &str); 29] = [
    (CauseOfDeath::MOD_BFG_SPLASH, "MOD_BFG_SPLASH"),
    (CauseOfDeath::MOD_BFG, "MOD_BFG"),
    (CauseOfDeath::MOD_CHAINGUN, "MOD_CHAINGUN"),
    (CauseOfDeath::MOD_CRUSH, "MOD_CRUSH"),
    (CauseOfDeath::MOD_FALLING, "MOD_FALLING"),
    (CauseOfDeath::MOD_GAUNTLET, "MOD_GAUNTLET"),
    (CauseOfDeath::MOD_GRAPPLE, "MOD_GRAPPLE"),
    (CauseOfDeath::MOD_GRENADE_SPLASH, "MOD_GRENADE_SPLASH"),
    (CauseOfDeath::MOD_GRENADE, "MOD_GRENADE"),
    (CauseOfDeath::MOD_JUICED, "MOD_JUICED"),
    (CauseOfDeath::MOD_KAMIKAZE, "MOD_KAMIKAZE"),
    (CauseOfDeath::MOD_LAVA, "MOD_LAVA"),
    (CauseOfDeath::MOD_LIGHTNING, "MOD_LIGHTNING"),
    (CauseOfDeath::MOD_MACHINEGUN, "MOD_MACHINEGUN"),
    (CauseOfDeath::MOD_NAIL, "MOD_NAIL"),
    (CauseOfDeath::MOD_PLASMA_SPLASH, "MOD_PLASMA_SPLASH"),
    (CauseOfDeath::MOD_PLASMA, "MOD_PLASMA"),
    (CauseOfDeath::MOD_PROXIMITY_MINE, "MOD_PROXIMITY_MINE"),
    (CauseOfDeath::MOD_RAILGUN, "MOD_RAILGUN"),
    (CauseOfDeath::MOD_ROCKET_SPLASH, "MOD_ROCKET_SPLASH"),
    (CauseOfDeath::MOD_ROCKET, "MOD_ROCKET"),
    (CauseOfDeath::MOD_SHOTGUN, "MOD_SHOTGUN"),
    (CauseOfDeath::MOD_SLIME, "MOD_SLIME"),
    (CauseOfDeath::MOD_SUICIDE, "MOD_SUICIDE"),
    (CauseOfDeath::MOD_TARGET_LASER, "MOD_TARGET_LASER"),
    (CauseOfDeath::MOD_TELEFRAG, "MOD_TELEFRAG"),
    (CauseOfDeath::MOD_TRIGGER_HURT, "MOD_TRIGGER_HURT"),
    (CauseOfDeath::MOD_UNKNOWN, "MOD_UNKNOWN"),
    (CauseOfDeath::MOD_WATER, "MOD_WATER"),
];

#[test]
fn vocabulary_has_29_causes() {
    assert_eq!(CAUSE_COUNT, 29);
    assert_eq!(ALL.len(), CAUSE_COUNT);
}

#[test]
fn token_of_each_cause() {
    for (cause, token) in ALL {
        assert_eq!(cause.as_str(), token);
        assert_eq!(cause.to_string(), String::from(token));
    }
}

#[test]
fn token_round_trip() {
    for (cause, _) in ALL {
        assert_eq!(CauseOfDeath::from_token(cause.as_str()), Some(cause));
        assert_eq!(CauseOfDeath::from_token(&cause.to_string()), Some(cause));
    }
}

#[test]
fn from_token_reads_each_token() {
    for (cause, token) in ALL {
        assert_eq!(CauseOfDeath::from_token(token), Some(cause));
    }
}

#[test]
fn from_token_is_exact() {
    assert_eq!(CauseOfDeath::from_token(""), None);
    assert_eq!(CauseOfDeath::from_token("MOD_"), None);
    assert_eq!(CauseOfDeath::from_token("mod_rocket"), None);
    assert_eq!(CauseOfDeath::from_token("MOD_ROCKET "), None);
    assert_eq!(CauseOfDeath::from_token(" MOD_ROCKET"), None);
    assert_eq!(CauseOfDeath::from_token("MOD_ROCKET_"), None);
    assert_eq!(CauseOfDeath::from_token("MOD_ROCKET_SPLAS"), None);
    assert_eq!(CauseOfDeath::from_token("MOD_BFG_SPLASH\n"), None);
    assert_eq!(CauseOfDeath::from_token("ROCKET"), None);
    assert_eq!(CauseOfDeath::from_token("MOD_RÖCKET"), None);
}

#[test]
fn ordinal_follows_the_vocabulary() {
    for (i, (cause, _)) in ALL.iter().enumerate() {
        assert_eq!(cause.ordinal(), i);
        assert_eq!(CauseOfDeath::from_ordinal(i), *cause);
    }
}

#[test]
fn order_follows_the_vocabulary() {
    for pair in ALL.windows(2) {
        assert!(pair[0].0 < pair[1].0);
        assert!(pair[0].0.ordinal() < pair[1].0.ordinal());
    }
}
