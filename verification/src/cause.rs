//! The closed vocabulary of causes of death and its textual tokens.

use vstd::prelude::*;

use crate::text::str_eq;

verus! {

/// How many causes of death the vocabulary holds.
pub const CAUSE_COUNT: usize = 29;

/// The instrument or circumstance of a kill, as the game names it:
/// <https://github.com/id-Software/Quake-III-Arena/blob/master/code/game/bg_public.h#L571-L604>.
///
/// The order of the variants is the order of the vocabulary; the derived
/// ordering and [`CauseOfDeath::ordinal`] both follow it.
#[derive(Clone, Copy, Debug, PartialEq, Eq, PartialOrd, Ord, Hash, Structural)]
#[allow(non_camel_case_types)]
pub enum CauseOfDeath {
    MOD_BFG_SPLASH,
    MOD_BFG,
    MOD_CHAINGUN,
    MOD_CRUSH,
    MOD_FALLING,
    MOD_GAUNTLET,
    MOD_GRAPPLE,
    MOD_GRENADE_SPLASH,
    MOD_GRENADE,
    MOD_JUICED,
    MOD_KAMIKAZE,
    MOD_LAVA,
    MOD_LIGHTNING,
    MOD_MACHINEGUN,
    MOD_NAIL,
    MOD_PLASMA_SPLASH,
    MOD_PLASMA,
    MOD_PROXIMITY_MINE,
    MOD_RAILGUN,
    MOD_ROCKET_SPLASH,
    MOD_ROCKET,
    MOD_SHOTGUN,
    MOD_SLIME,
    MOD_SUICIDE,
    MOD_TARGET_LASER,
    MOD_TELEFRAG,
    MOD_TRIGGER_HURT,
    MOD_UNKNOWN,
    MOD_WATER,
}

impl CauseOfDeath {
    /// The position of this cause in the vocabulary, counted from zero.
    pub open spec fn index(self) -> int {
        match self {
            CauseOfDeath::MOD_BFG_SPLASH => 0,
            CauseOfDeath::MOD_BFG => 1,
            CauseOfDeath::MOD_CHAINGUN => 2,
            CauseOfDeath::MOD_CRUSH => 3,
            CauseOfDeath::MOD_FALLING => 4,
            CauseOfDeath::MOD_GAUNTLET => 5,
            CauseOfDeath::MOD_GRAPPLE => 6,
            CauseOfDeath::MOD_GRENADE_SPLASH => 7,
            CauseOfDeath::MOD_GRENADE => 8,
            CauseOfDeath::MOD_JUICED => 9,
            CauseOfDeath::MOD_KAMIKAZE => 10,
            CauseOfDeath::MOD_LAVA => 11,
            CauseOfDeath::MOD_LIGHTNING => 12,
            CauseOfDeath::MOD_MACHINEGUN => 13,
            CauseOfDeath::MOD_NAIL => 14,
            CauseOfDeath::MOD_PLASMA_SPLASH => 15,
            CauseOfDeath::MOD_PLASMA => 16,
            CauseOfDeath::MOD_PROXIMITY_MINE => 17,
            CauseOfDeath::MOD_RAILGUN => 18,
            CauseOfDeath::MOD_ROCKET_SPLASH => 19,
            CauseOfDeath::MOD_ROCKET => 20,
            CauseOfDeath::MOD_SHOTGUN => 21,
            CauseOfDeath::MOD_SLIME => 22,
            CauseOfDeath::MOD_SUICIDE => 23,
            CauseOfDeath::MOD_TARGET_LASER => 24,
            CauseOfDeath::MOD_TELEFRAG => 25,
            CauseOfDeath::MOD_TRIGGER_HURT => 26,
            CauseOfDeath::MOD_UNKNOWN => 27,
            CauseOfDeath::MOD_WATER => 28,
        }
    }

    /// The cause at position `i` of the vocabulary; positions outside
    /// `0..CAUSE_COUNT` all give the last cause.
    pub open spec fn at(i: int) -> CauseOfDeath {
        if i == 0 {
            CauseOfDeath::MOD_BFG_SPLASH
        } else if i == 1 {
            CauseOfDeath::MOD_BFG
        } else if i == 2 {
            CauseOfDeath::MOD_CHAINGUN
        } else if i == 3 {
            CauseOfDeath::MOD_CRUSH
        } else if i == 4 {
            CauseOfDeath::MOD_FALLING
        } else if i == 5 {
            CauseOfDeath::MOD_GAUNTLET
        } else if i == 6 {
            CauseOfDeath::MOD_GRAPPLE
        } else if i == 7 {
            CauseOfDeath::MOD_GRENADE_SPLASH
        } else if i == 8 {
            CauseOfDeath::MOD_GRENADE
        } else if i == 9 {
            CauseOfDeath::MOD_JUICED
        } else if i == 10 {
            CauseOfDeath::MOD_KAMIKAZE
        } else if i == 11 {
            CauseOfDeath::MOD_LAVA
        } else if i == 12 {
            CauseOfDeath::MOD_LIGHTNING
        } else if i == 13 {
            CauseOfDeath::MOD_MACHINEGUN
        } else if i == 14 {
            CauseOfDeath::MOD_NAIL
        } else if i == 15 {
            CauseOfDeath::MOD_PLASMA_SPLASH
        } else if i == 16 {
            CauseOfDeath::MOD_PLASMA
        } else if i == 17 {
            CauseOfDeath::MOD_PROXIMITY_MINE
        } else if i == 18 {
            CauseOfDeath::MOD_RAILGUN
        } else if i == 19 {
            CauseOfDeath::MOD_ROCKET_SPLASH
        } else if i == 20 {
            CauseOfDeath::MOD_ROCKET
        } else if i == 21 {
            CauseOfDeath::MOD_SHOTGUN
        } else if i == 22 {
            CauseOfDeath::MOD_SLIME
        } else if i == 23 {
            CauseOfDeath::MOD_SUICIDE
        } else if i == 24 {
            CauseOfDeath::MOD_TARGET_LASER
        } else if i == 25 {
            CauseOfDeath::MOD_TELEFRAG
        } else if i == 26 {
            CauseOfDeath::MOD_TRIGGER_HURT
        } else if i == 27 {
            CauseOfDeath::MOD_UNKNOWN
        } else {
            CauseOfDeath::MOD_WATER
        }
    }

    /// The textual token of this cause, exactly as a log line spells it.
    pub open spec fn token(self) -> Seq<char> {
        match self {
            CauseOfDeath::MOD_BFG_SPLASH => "MOD_BFG_SPLASH"@,
            CauseOfDeath::MOD_BFG => "MOD_BFG"@,
            CauseOfDeath::MOD_CHAINGUN => "MOD_CHAINGUN"@,
            CauseOfDeath::MOD_CRUSH => "MOD_CRUSH"@,
            CauseOfDeath::MOD_FALLING => "MOD_FALLING"@,
            CauseOfDeath::MOD_GAUNTLET => "MOD_GAUNTLET"@,
            CauseOfDeath::MOD_GRAPPLE => "MOD_GRAPPLE"@,
            CauseOfDeath::MOD_GRENADE_SPLASH => "MOD_GRENADE_SPLASH"@,
            CauseOfDeath::MOD_GRENADE => "MOD_GRENADE"@,
            CauseOfDeath::MOD_JUICED => "MOD_JUICED"@,
            CauseOfDeath::MOD_KAMIKAZE => "MOD_KAMIKAZE"@,
            CauseOfDeath::MOD_LAVA => "MOD_LAVA"@,
            CauseOfDeath::MOD_LIGHTNING => "MOD_LIGHTNING"@,
            CauseOfDeath::MOD_MACHINEGUN => "MOD_MACHINEGUN"@,
            CauseOfDeath::MOD_NAIL => "MOD_NAIL"@,
            CauseOfDeath::MOD_PLASMA_SPLASH => "MOD_PLASMA_SPLASH"@,
            CauseOfDeath::MOD_PLASMA => "MOD_PLASMA"@,
            CauseOfDeath::MOD_PROXIMITY_MINE => "MOD_PROXIMITY_MINE"@,
            CauseOfDeath::MOD_RAILGUN => "MOD_RAILGUN"@,
            CauseOfDeath::MOD_ROCKET_SPLASH => "MOD_ROCKET_SPLASH"@,
            CauseOfDeath::MOD_ROCKET => "MOD_ROCKET"@,
            CauseOfDeath::MOD_SHOTGUN => "MOD_SHOTGUN"@,
            CauseOfDeath::MOD_SLIME => "MOD_SLIME"@,
            CauseOfDeath::MOD_SUICIDE => "MOD_SUICIDE"@,
            CauseOfDeath::MOD_TARGET_LASER => "MOD_TARGET_LASER"@,
            CauseOfDeath::MOD_TELEFRAG => "MOD_TELEFRAG"@,
            CauseOfDeath::MOD_TRIGGER_HURT => "MOD_TRIGGER_HURT"@,
            CauseOfDeath::MOD_UNKNOWN => "MOD_UNKNOWN"@,
            CauseOfDeath::MOD_WATER => "MOD_WATER"@,
        }
    }

    /// The cause that `token` spells, if it spells one. Tokens are compared
    /// exactly: case matters and nothing is trimmed.
    pub open spec fn parse(token: Seq<char>) -> Option<CauseOfDeath> {
        if exists|c: CauseOfDeath| c.token() == token {
            Some(choose|c: CauseOfDeath| c.token() == token)
        } else {
            None
        }
    }

    /// The position of this cause in the vocabulary, counted from zero.
    pub fn ordinal(self) -> (i: usize)
        ensures
            i == self.index(),
            i < CAUSE_COUNT,
    {
        match self {
            CauseOfDeath::MOD_BFG_SPLASH => 0,
            CauseOfDeath::MOD_BFG => 1,
            CauseOfDeath::MOD_CHAINGUN => 2,
            CauseOfDeath::MOD_CRUSH => 3,
            CauseOfDeath::MOD_FALLING => 4,
            CauseOfDeath::MOD_GAUNTLET => 5,
            CauseOfDeath::MOD_GRAPPLE => 6,
            CauseOfDeath::MOD_GRENADE_SPLASH => 7,
            CauseOfDeath::MOD_GRENADE => 8,
            CauseOfDeath::MOD_JUICED => 9,
            CauseOfDeath::MOD_KAMIKAZE => 10,
            CauseOfDeath::MOD_LAVA => 11,
            CauseOfDeath::MOD_LIGHTNING => 12,
            CauseOfDeath::MOD_MACHINEGUN => 13,
            CauseOfDeath::MOD_NAIL => 14,
            CauseOfDeath::MOD_PLASMA_SPLASH => 15,
            CauseOfDeath::MOD_PLASMA => 16,
            CauseOfDeath::MOD_PROXIMITY_MINE => 17,
            CauseOfDeath::MOD_RAILGUN => 18,
            CauseOfDeath::MOD_ROCKET_SPLASH => 19,
            CauseOfDeath::MOD_ROCKET => 20,
            CauseOfDeath::MOD_SHOTGUN => 21,
            CauseOfDeath::MOD_SLIME => 22,
            CauseOfDeath::MOD_SUICIDE => 23,
            CauseOfDeath::MOD_TARGET_LASER => 24,
            CauseOfDeath::MOD_TELEFRAG => 25,
            CauseOfDeath::MOD_TRIGGER_HURT => 26,
            CauseOfDeath::MOD_UNKNOWN => 27,
            CauseOfDeath::MOD_WATER => 28,
        }
    }

    /// The cause at position `i` of the vocabulary.
    pub fn from_ordinal(i: usize) -> (cause: CauseOfDeath)
        requires
            i < CAUSE_COUNT,
        ensures
            cause == CauseOfDeath::at(i as int),
            cause.index() == i,
    {
        if i == 0 {
            CauseOfDeath::MOD_BFG_SPLASH
        } else if i == 1 {
            CauseOfDeath::MOD_BFG
        } else if i == 2 {
            CauseOfDeath::MOD_CHAINGUN
        } else if i == 3 {
            CauseOfDeath::MOD_CRUSH
        } else if i == 4 {
            CauseOfDeath::MOD_FALLING
        } else if i == 5 {
            CauseOfDeath::MOD_GAUNTLET
        } else if i == 6 {
            CauseOfDeath::MOD_GRAPPLE
        } else if i == 7 {
            CauseOfDeath::MOD_GRENADE_SPLASH
        } else if i == 8 {
            CauseOfDeath::MOD_GRENADE
        } else if i == 9 {
            CauseOfDeath::MOD_JUICED
        } else if i == 10 {
            CauseOfDeath::MOD_KAMIKAZE
        } else if i == 11 {
            CauseOfDeath::MOD_LAVA
        } else if i == 12 {
            CauseOfDeath::MOD_LIGHTNING
        } else if i == 13 {
            CauseOfDeath::MOD_MACHINEGUN
        } else if i == 14 {
            CauseOfDeath::MOD_NAIL
        } else if i == 15 {
            CauseOfDeath::MOD_PLASMA_SPLASH
        } else if i == 16 {
            CauseOfDeath::MOD_PLASMA
        } else if i == 17 {
            CauseOfDeath::MOD_PROXIMITY_MINE
        } else if i == 18 {
            CauseOfDeath::MOD_RAILGUN
        } else if i == 19 {
            CauseOfDeath::MOD_ROCKET_SPLASH
        } else if i == 20 {
            CauseOfDeath::MOD_ROCKET
        } else if i == 21 {
            CauseOfDeath::MOD_SHOTGUN
        } else if i == 22 {
            CauseOfDeath::MOD_SLIME
        } else if i == 23 {
            CauseOfDeath::MOD_SUICIDE
        } else if i == 24 {
            CauseOfDeath::MOD_TARGET_LASER
        } else if i == 25 {
            CauseOfDeath::MOD_TELEFRAG
        } else if i == 26 {
            CauseOfDeath::MOD_TRIGGER_HURT
        } else if i == 27 {
            CauseOfDeath::MOD_UNKNOWN
        } else {
            CauseOfDeath::MOD_WATER
        }
    }

    /// The textual token of this cause.
    pub fn as_str(&self) -> (token: &'static str)
        ensures
            token@ == self.token(),
    {
        match self {
            CauseOfDeath::MOD_BFG_SPLASH => "MOD_BFG_SPLASH",
            CauseOfDeath::MOD_BFG => "MOD_BFG",
            CauseOfDeath::MOD_CHAINGUN => "MOD_CHAINGUN",
            CauseOfDeath::MOD_CRUSH => "MOD_CRUSH",
            CauseOfDeath::MOD_FALLING => "MOD_FALLING",
            CauseOfDeath::MOD_GAUNTLET => "MOD_GAUNTLET",
            CauseOfDeath::MOD_GRAPPLE => "MOD_GRAPPLE",
            CauseOfDeath::MOD_GRENADE_SPLASH => "MOD_GRENADE_SPLASH",
            CauseOfDeath::MOD_GRENADE => "MOD_GRENADE",
            CauseOfDeath::MOD_JUICED => "MOD_JUICED",
            CauseOfDeath::MOD_KAMIKAZE => "MOD_KAMIKAZE",
            CauseOfDeath::MOD_LAVA => "MOD_LAVA",
            CauseOfDeath::MOD_LIGHTNING => "MOD_LIGHTNING",
            CauseOfDeath::MOD_MACHINEGUN => "MOD_MACHINEGUN",
            CauseOfDeath::MOD_NAIL => "MOD_NAIL",
            CauseOfDeath::MOD_PLASMA_SPLASH => "MOD_PLASMA_SPLASH",
            CauseOfDeath::MOD_PLASMA => "MOD_PLASMA",
            CauseOfDeath::MOD_PROXIMITY_MINE => "MOD_PROXIMITY_MINE",
            CauseOfDeath::MOD_RAILGUN => "MOD_RAILGUN",
            CauseOfDeath::MOD_ROCKET_SPLASH => "MOD_ROCKET_SPLASH",
            CauseOfDeath::MOD_ROCKET => "MOD_ROCKET",
            CauseOfDeath::MOD_SHOTGUN => "MOD_SHOTGUN",
            CauseOfDeath::MOD_SLIME => "MOD_SLIME",
            CauseOfDeath::MOD_SUICIDE => "MOD_SUICIDE",
            CauseOfDeath::MOD_TARGET_LASER => "MOD_TARGET_LASER",
            CauseOfDeath::MOD_TELEFRAG => "MOD_TELEFRAG",
            CauseOfDeath::MOD_TRIGGER_HURT => "MOD_TRIGGER_HURT",
            CauseOfDeath::MOD_UNKNOWN => "MOD_UNKNOWN",
            CauseOfDeath::MOD_WATER => "MOD_WATER",
        }
    }

    /// The textual token of this cause, as an owned string.
    pub fn to_string(&self) -> (token: String)
        ensures
            token@ == self.token(),
    {
        self.as_str().to_owned()
    }

    /// Reads a cause from its textual token. Gives `None` for any text that
    /// is not, letter for letter, the token of a cause.
    pub fn from_token(token: &str) -> (cause: Option<CauseOfDeath>)
        ensures
            cause == CauseOfDeath::parse(token@),
            forall|c: CauseOfDeath| cause == Some(c) <==> #[trigger] c.token() == token@,
    {
        let mut i: usize = 0;
        while i < CAUSE_COUNT
            invariant
                i <= CAUSE_COUNT,
                forall|j: int| 0 <= j < i ==> (#[trigger] CauseOfDeath::at(j)).token() != token@,
            decreases CAUSE_COUNT - i,
        {
            let candidate = CauseOfDeath::from_ordinal(i);
            if str_eq(candidate.as_str(), token) {
                proof {
                    lemma_token_is_injective();
                }
                return Some(candidate);
            }
            i += 1;
        }
        proof {
            assert forall|c: CauseOfDeath| c.token() != token@ by {
                lemma_index_round_trip(c);
            }
        }
        None
    }
}

/// Every cause sits at its own position of the vocabulary, and the positions
/// are `0..CAUSE_COUNT`.
pub proof fn lemma_index_round_trip(c: CauseOfDeath)
    ensures
        0 <= c.index() < CAUSE_COUNT,
        CauseOfDeath::at(c.index()) == c,
{
}

/// Every position of the vocabulary holds the cause with that index.
pub proof fn lemma_at_round_trip(i: int)
    requires
        0 <= i < CAUSE_COUNT,
    ensures
        CauseOfDeath::at(i).index() == i,
{
}

/// How long each token of the vocabulary is, and the letters that tell
/// tokens of one length apart.
proof fn reveal_tokens()
    ensures
        "MOD_BFG_SPLASH"@.len() == 14,
        "MOD_BFG"@.len() == 7,
        "MOD_CHAINGUN"@.len() == 12,
        "MOD_CRUSH"@.len() == 9,
        "MOD_FALLING"@.len() == 11,
        "MOD_GAUNTLET"@.len() == 12,
        "MOD_GRAPPLE"@.len() == 11,
        "MOD_GRENADE_SPLASH"@.len() == 18,
        "MOD_GRENADE"@.len() == 11,
        "MOD_JUICED"@.len() == 10,
        "MOD_KAMIKAZE"@.len() == 12,
        "MOD_LAVA"@.len() == 8,
        "MOD_LIGHTNING"@.len() == 13,
        "MOD_MACHINEGUN"@.len() == 14,
        "MOD_NAIL"@.len() == 8,
        "MOD_PLASMA_SPLASH"@.len() == 17,
        "MOD_PLASMA"@.len() == 10,
        "MOD_PROXIMITY_MINE"@.len() == 18,
        "MOD_RAILGUN"@.len() == 11,
        "MOD_ROCKET_SPLASH"@.len() == 17,
        "MOD_ROCKET"@.len() == 10,
        "MOD_SHOTGUN"@.len() == 11,
        "MOD_SLIME"@.len() == 9,
        "MOD_SUICIDE"@.len() == 11,
        "MOD_TARGET_LASER"@.len() == 16,
        "MOD_TELEFRAG"@.len() == 12,
        "MOD_TRIGGER_HURT"@.len() == 16,
        "MOD_UNKNOWN"@.len() == 11,
        "MOD_WATER"@.len() == 9,
        "MOD_BFG_SPLASH"@[4] == 'B',
        "MOD_CHAINGUN"@[4] == 'C',
        "MOD_CRUSH"@[4] == 'C',
        "MOD_FALLING"@[4] == 'F',
        "MOD_GAUNTLET"@[4] == 'G',
        "MOD_GRAPPLE"@[4] == 'G',
        "MOD_GRAPPLE"@[6] == 'A',
        "MOD_GRENADE_SPLASH"@[4] == 'G',
        "MOD_GRENADE"@[4] == 'G',
        "MOD_GRENADE"@[6] == 'E',
        "MOD_JUICED"@[4] == 'J',
        "MOD_KAMIKAZE"@[4] == 'K',
        "MOD_LAVA"@[4] == 'L',
        "MOD_MACHINEGUN"@[4] == 'M',
        "MOD_NAIL"@[4] == 'N',
        "MOD_PLASMA_SPLASH"@[4] == 'P',
        "MOD_PLASMA"@[4] == 'P',
        "MOD_PROXIMITY_MINE"@[4] == 'P',
        "MOD_RAILGUN"@[4] == 'R',
        "MOD_ROCKET_SPLASH"@[4] == 'R',
        "MOD_ROCKET"@[4] == 'R',
        "MOD_SHOTGUN"@[4] == 'S',
        "MOD_SHOTGUN"@[5] == 'H',
        "MOD_SLIME"@[4] == 'S',
        "MOD_SUICIDE"@[4] == 'S',
        "MOD_SUICIDE"@[5] == 'U',
        "MOD_TARGET_LASER"@[5] == 'A',
        "MOD_TELEFRAG"@[4] == 'T',
        "MOD_TRIGGER_HURT"@[5] == 'R',
        "MOD_UNKNOWN"@[4] == 'U',
        "MOD_WATER"@[4] == 'W',
{
    reveal_strlit("MOD_BFG_SPLASH");
    reveal_strlit("MOD_BFG");
    reveal_strlit("MOD_CHAINGUN");
    reveal_strlit("MOD_CRUSH");
    reveal_strlit("MOD_FALLING");
    reveal_strlit("MOD_GAUNTLET");
    reveal_strlit("MOD_GRAPPLE");
    reveal_strlit("MOD_GRENADE_SPLASH");
    reveal_strlit("MOD_GRENADE");
    reveal_strlit("MOD_JUICED");
    reveal_strlit("MOD_KAMIKAZE");
    reveal_strlit("MOD_LAVA");
    reveal_strlit("MOD_LIGHTNING");
    reveal_strlit("MOD_MACHINEGUN");
    reveal_strlit("MOD_NAIL");
    reveal_strlit("MOD_PLASMA_SPLASH");
    reveal_strlit("MOD_PLASMA");
    reveal_strlit("MOD_PROXIMITY_MINE");
    reveal_strlit("MOD_RAILGUN");
    reveal_strlit("MOD_ROCKET_SPLASH");
    reveal_strlit("MOD_ROCKET");
    reveal_strlit("MOD_SHOTGUN");
    reveal_strlit("MOD_SLIME");
    reveal_strlit("MOD_SUICIDE");
    reveal_strlit("MOD_TARGET_LASER");
    reveal_strlit("MOD_TELEFRAG");
    reveal_strlit("MOD_TRIGGER_HURT");
    reveal_strlit("MOD_UNKNOWN");
    reveal_strlit("MOD_WATER");
}

/// No two causes share a token.
pub proof fn lemma_token_is_injective()
    ensures
        forall|a: CauseOfDeath, b: CauseOfDeath| a.token() == b.token() ==> a == b,
{
    assert forall|a: CauseOfDeath, b: CauseOfDeath| a.token() == b.token() implies a == b by {
        if a != b {
            lemma_tokens_differ(a, b);
        }
    }
}

/// Two different causes have different tokens.
proof fn lemma_tokens_differ(a: CauseOfDeath, b: CauseOfDeath)
    requires
        a != b,
    ensures
        a.token() != b.token(),
{
    // Two tokens differ in length, or in one of the letters revealed here.
    reveal_tokens();
}

/// Rendering a cause to its token and reading the token back gives the same
/// cause, for every cause of the vocabulary.
pub proof fn lemma_token_round_trip(c: CauseOfDeath)
    ensures
        CauseOfDeath::parse(c.token()) == Some(c),
{
    lemma_token_is_injective();
}

} // verus!
