//! A record of all games, from the newest to the oldest.

use std::collections::BTreeMap;

use vstd::prelude::*;

use crate::common::contract::ClaimData;
use crate::common::contract::GameStatus;
use crate::common::fixed_bytes::Address;
use crate::common::fixed_bytes::B256;
use crate::common::primitives::GameIndex;

verus! {

/// The type of the games that are recorded.
pub const GAME_TYPE: u32 = 42;

/// How long to wait, in seconds, once all games are recorded.
pub const IDLE_SECS: u64 = 30;

/// A recorded game.
#[derive(Clone, Copy, Debug, PartialEq, Eq)]
pub struct Game {
    pub address: Address,
    pub starting_block_number: u64,
    pub l2_block_number: u64,
    pub root_claim: B256,
    pub was_respected_game_type_when_created: bool,
    pub status: GameStatus,
    pub claim_data: ClaimData,
    /// The bond in wei, most significant byte first.
    pub challenger_bond: B256,
    pub bond_distribution_mode: u8,
}

/// The game is not of the type that is recorded.
#[derive(Clone, Copy, Debug, PartialEq, Eq)]
pub struct UnsupportedGameType {
    pub game_type: u32,
}

/// Games of other types are not recorded.
pub fn check_game_type(game_type: u32) -> (r: Result<(), UnsupportedGameType>)
    ensures
        r == (if game_type == GAME_TYPE {
            Ok::<(), UnsupportedGameType>(())
        } else {
            Err(UnsupportedGameType { game_type })
        }),
{
    if game_type != GAME_TYPE {
        return Err(UnsupportedGameType { game_type });
    }
    Ok(())
}

/// The first `n` games are recorded.
pub open spec fn all_are_recorded(games: Map<GameIndex, Game>, n: GameIndex) -> bool {
    forall|j: GameIndex| j < n ==> #[trigger] games.contains_key(j)
}

/// Those of the first `n` games that lie after `i` are recorded.
pub open spec fn all_after_are_recorded(
    games: Map<GameIndex, Game>,
    i: GameIndex,
    n: GameIndex,
) -> bool {
    forall|j: GameIndex| i < j < n ==> #[trigger] games.contains_key(j)
}

/// The games that are recorded.
#[derive(Debug)]
pub struct Monitor {
    games: BTreeMap<GameIndex, Game>,
}

impl View for Monitor {
    type V = Map<GameIndex, Game>;

    closed spec fn view(&self) -> Map<GameIndex, Game> {
        self.games@
    }
}

impl Monitor {
    pub fn new() -> (r: Self)
        ensures
            r@ == Map::<GameIndex, Game>::empty(),
    {
        Monitor { games: BTreeMap::new() }
    }

    /// The newest of `game_count` games that is not recorded; `None` if all are.
    pub fn first_unsynced(&self, game_count: GameIndex) -> (r: Option<GameIndex>)
        ensures
            match r {
                Some(i) => i < game_count && !self@.contains_key(i) && all_after_are_recorded(
                    self@,
                    i,
                    game_count,
                ),
                None => all_are_recorded(self@, game_count),
            },
    {
        let mut i: GameIndex = game_count;
        while i > 0
            invariant
                i <= game_count,
                forall|j: GameIndex| i <= j < game_count ==> #[trigger] self@.contains_key(j),
            decreases i,
        {
            i = i - 1;
            if !self.games.contains_key(&i) {
                return Some(i);
            }
        }
        None
    }

    /// Records a game.
    pub fn record(&mut self, game_index: GameIndex, game: Game)
        ensures
            final(self)@ == old(self)@.insert(game_index, game),
    {
        self.games.insert(game_index, game);
    }

    /// How long to wait, in seconds, after a round: not at all if a game was recorded.
    pub fn idle_secs(progressed: bool) -> (r: u64)
        ensures
            r == (if progressed {
                0
            } else {
                IDLE_SECS
            }),
    {
        if progressed {
            0
        } else {
            IDLE_SECS
        }
    }
}

/// Only games of type 42 are recorded; the type of any other game is named.
pub proof fn one_game_type_is_recorded(game_type: u32, r: Result<(), UnsupportedGameType>)
    requires
        call_ensures(check_game_type, (game_type,), r),
    ensures
        r is Ok <==> game_type == 42,
        r matches Err(e) ==> e.game_type == game_type,
{
}

/// Of the games that exist, none after the one that is recorded next is missing. Once it is recorded,
/// the next one lies before it, or all are recorded. There is a pause of half a minute only then.
pub proof fn games_are_recorded_from_newest(
    monitor: &Monitor,
    recording: &mut Monitor,
    recorded: &Monitor,
    game_count: GameIndex,
    i: GameIndex,
    game: Game,
    next: Option<GameIndex>,
    j: GameIndex,
    progressed: bool,
    pause: u64,
)
    requires
        call_ensures(Monitor::first_unsynced, (monitor, game_count), Some(i)),
        *recording == *monitor,
        call_ensures(Monitor::record, (recording, i, game), ()),
        *recorded == *final(recording),
        call_ensures(Monitor::first_unsynced, (recorded, game_count), next),
        call_ensures(Monitor::idle_secs, (progressed,), pause),
    ensures
        i < game_count,
        !monitor@.contains_key(i),
        i < j < game_count ==> monitor@.contains_key(j),
        recorded@.contains_key(i) && recorded@[i] == game,
        j != i ==> (recorded@.contains_key(j) <==> monitor@.contains_key(j)),
        j != i && monitor@.contains_key(j) ==> recorded@[j] == monitor@[j],
        next matches Some(n) ==> n < i,
        next is None && j < game_count ==> recorded@.contains_key(j),
        progressed ==> pause == 0,
        !progressed ==> pause == 30,
{
}

/// The number of the first `n` games that are not recorded.
pub open spec fn missing(games: Map<GameIndex, Game>, n: GameIndex) -> nat
    decreases n,
{
    if n == 0 {
        0
    } else {
        let i = (n - 1) as GameIndex;
        missing(games, i) + if games.contains_key(i) {
            0nat
        } else {
            1nat
        }
    }
}

/// Each round that records a game leaves one less to record, so all games are recorded in the end.
pub proof fn recording_makes_progress(
    games: Map<GameIndex, Game>,
    n: GameIndex,
    i: GameIndex,
    game: Game,
)
    requires
        i < n,
        !games.contains_key(i),
    ensures
        missing(games.insert(i, game), n) + 1 == missing(games, n),
    decreases n,
{
    let last = (n - 1) as GameIndex;
    if i < last {
        recording_makes_progress(games, last, i, game);
    } else {
        recording_elsewhere_changes_nothing(games, last, i, game);
    }
}

proof fn recording_elsewhere_changes_nothing(
    games: Map<GameIndex, Game>,
    n: GameIndex,
    i: GameIndex,
    game: Game,
)
    requires
        n <= i,
    ensures
        missing(games.insert(i, game), n) == missing(games, n),
    decreases n,
{
    if n > 0 {
        recording_elsewhere_changes_nothing(games, (n - 1) as GameIndex, i, game);
    }
}

} // verus!
