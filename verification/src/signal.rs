use vstd::prelude::*;

verus! {

/// What is read of one player while a match is running.
#[derive(Clone, Copy, Debug, PartialEq, Eq, Structural)]
pub struct PlayerState {
    /// The player's hitstop counter, as it was read.
    pub hitstop: u8,
    /// Whether the player is in the stagger window that follows a hit.
    pub in_hitstun: bool,
}

/// One reading of the game: taken afresh on every tick, never kept.
#[derive(Clone, Copy, Debug, PartialEq, Eq, Structural)]
pub struct GameSignal {
    pub hitstop: u8,
    pub either_player_in_hitstun: bool,
}

/// The reading that stands for "nothing to feel": no hitstop, nobody hit.
pub open spec fn neutral() -> GameSignal {
    GameSignal { hitstop: 0, either_player_in_hitstun: false }
}

/// The larger of two hitstop counters.
pub open spec fn combined_hitstop(first: u8, second: u8) -> u8 {
    if first >= second {
        first
    } else {
        second
    }
}

/// Whether a status byte marks its player as staggered: its lowest bit is
/// set.
pub open spec fn marks_hitstun(status: u8) -> bool {
    status & 1u8 == 1u8
}

/// The signal that two player readings amount to. A player that cannot be
/// resolved makes the whole reading neutral.
pub open spec fn signal_of(first: Option<PlayerState>, second: Option<PlayerState>) -> GameSignal {
    match (first, second) {
        (Some(one), Some(two)) => GameSignal {
            hitstop: combined_hitstop(one.hitstop, two.hitstop),
            either_player_in_hitstun: one.in_hitstun || two.in_hitstun,
        },
        _ => neutral(),
    }
}

impl PlayerState {
    pub fn new(hitstop: u8, in_hitstun: bool) -> (result: PlayerState)
        ensures
            result == (PlayerState { hitstop, in_hitstun }),
    {
        PlayerState { hitstop, in_hitstun }
    }
}

impl GameSignal {
    /// The neutral reading.
    pub fn neutral() -> (result: GameSignal)
        ensures
            result == neutral(),
    {
        GameSignal { hitstop: 0, either_player_in_hitstun: false }
    }

    /// Nothing is happening that a device should render.
    pub fn is_quiet(&self) -> (result: bool)
        ensures
            result == (self.hitstop == 0),
    {
        self.hitstop == 0
    }
}

/// Reads the hitstun flag out of a player's status byte.
pub fn hitstun_flag(status: u8) -> (result: bool)
    ensures
        result == marks_hitstun(status),
{
    status & 1u8 == 1u8
}

/// Combines the two player readings of one tick into a signal. Never fails:
/// while no match is running the players are absent and the reading is
/// neutral.
pub fn sample(first: Option<PlayerState>, second: Option<PlayerState>) -> (result: GameSignal)
    ensures
        result == signal_of(first, second),
        first.is_none() || second.is_none() ==> result == neutral(),
        first.is_some() && second.is_some() ==> result.hitstop >= first.unwrap().hitstop
            && result.hitstop >= second.unwrap().hitstop && (result.hitstop
            == first.unwrap().hitstop || result.hitstop == second.unwrap().hitstop),
{
    match (first, second) {
        (Some(one), Some(two)) => {
            let longest: u8 = if one.hitstop >= two.hitstop {
                one.hitstop
            } else {
                two.hitstop
            };
            GameSignal {
                hitstop: longest,
                either_player_in_hitstun: one.in_hitstun || two.in_hitstun,
            }
        },
        _ => GameSignal::neutral(),
    }
}

} // verus!
