//! The state that all components of the service share.

use std::collections::BTreeMap;
use std::ops::Range;

use vstd::prelude::*;

use crate::common::contract::GameStatus;
use crate::common::fixed_bytes::B256;
use crate::common::primitives::AnchorRootSnapshot;
use crate::common::primitives::GameIndex;
use crate::common::primitives::GameSnapshot;

verus! {

/// What is known of the chain and its dispute games.
#[derive(Debug)]
pub struct State {
    pub game_count: u32,
    pub games: BTreeMap<GameIndex, GameSnapshot>,
    pub fetched_range: Range<GameIndex>,
    pub anchor_root: AnchorRootSnapshot,
    pub retirement_timestamp: u64,
    pub correct_output_roots: BTreeMap<u64, B256>,
}

/// `range` is a run of present games that has no present neighbour: where it is not empty, all its
/// games are present, and the game before it and the game after it are not. Where it is empty, no
/// game is present at all.
pub open spec fn is_full_run(
    games: Map<GameIndex, GameSnapshot>,
    range: Range<GameIndex>,
) -> bool {
    if range.start < range.end {
        &&& forall|i: GameIndex| range.start <= i < range.end ==> #[trigger] games.contains_key(i)
        &&& !games.contains_key(range.end)
        &&& range.start > 0 ==> !games.contains_key((range.start - 1) as GameIndex)
    } else {
        games == Map::<GameIndex, GameSnapshot>::empty()
    }
}

impl State {
    /// The fetched range is a full run of games. The greatest index stands for "no game", so no
    /// game has it.
    pub open spec fn wf(&self) -> bool {
        &&& is_full_run(self.games@, self.fetched_range)
        &&& self.fetched_range.start <= self.fetched_range.end
        &&& !self.games@.contains_key(GameIndex::MAX)
    }

    /// Challenging this game will surely win the bond: it can be challenged, it may still turn out
    /// valid, and its parent has lost or its output root is not the correct one.
    pub open spec fn surely_wins(&self, game: GameSnapshot, now: u64) -> bool {
        &&& game.challengeable(now)
        &&& game.good(self.retirement_timestamp)
        &&& {
            ||| self.games@.contains_key(game.parent_index)
                && self.games@[game.parent_index].game_status == GameStatus::CHALLENGER_WINS
            ||| self.correct_output_roots@.contains_key(game.claim_block)
                && self.correct_output_roots@[game.claim_block] != game.output_root
        }
    }

    /// Notes what is known of a game. Returns whether this is news.
    ///
    /// The fetched range grows to the games next to it, as far as they are present.
    pub fn insert_game(&mut self, game_index: GameIndex, game_snapshot: GameSnapshot) -> (r: bool)
        requires
            old(self).wf(),
            game_index < GameIndex::MAX,
        ensures
            final(self).wf(),
            r == !(old(self).games@.contains_key(game_index) && old(self).games@[game_index]
                == game_snapshot),
            final(self).games@ == old(self).games@.insert(game_index, game_snapshot),
            old(self).fetched_range.start >= old(self).fetched_range.end
                ==> final(self).fetched_range == (game_index..(game_index + 1) as GameIndex),
            old(self).fetched_range.start < old(self).fetched_range.end ==> {
                &&& final(self).fetched_range.start <= old(self).fetched_range.start
                &&& old(self).fetched_range.end <= final(self).fetched_range.end
            },
            final(self).game_count == old(self).game_count,
            final(self).anchor_root == old(self).anchor_root,
            final(self).retirement_timestamp == old(self).retirement_timestamp,
            final(self).correct_output_roots == old(self).correct_output_roots,
    {
        let ghost games_before = self.games@;
        if let Some(known) = self.games.get(&game_index) {
            if *known == game_snapshot {
                assert(self.games@ =~= games_before.insert(game_index, game_snapshot));
                return false;
            }
        }
        self.games.insert(game_index, game_snapshot);
        if self.fetched_range.start >= self.fetched_range.end {
            self.fetched_range = game_index..game_index + 1;
        } else if game_index == self.fetched_range.end {
            while self.games.contains_key(&self.fetched_range.end)
                invariant
                    self.games@ == games_before.insert(game_index, game_snapshot),
                    game_index < GameIndex::MAX,
                    !games_before.contains_key(GameIndex::MAX),
                    self.fetched_range.start == old(self).fetched_range.start,
                    self.fetched_range.start < old(self).fetched_range.end
                        <= self.fetched_range.end,
                    forall|i: GameIndex|
                        self.fetched_range.start <= i < self.fetched_range.end
                            ==> #[trigger] self.games@.contains_key(i),
                    self.game_count == old(self).game_count,
                    self.anchor_root == old(self).anchor_root,
                    self.retirement_timestamp == old(self).retirement_timestamp,
                    self.correct_output_roots == old(self).correct_output_roots,
                decreases GameIndex::MAX - self.fetched_range.end,
            {
                self.fetched_range.end = self.fetched_range.end + 1;
            }
        } else if game_index + 1 == self.fetched_range.start {
            while self.fetched_range.start > 0 && self.games.contains_key(
                &(self.fetched_range.start - 1),
            )
                invariant
                    self.games@ == games_before.insert(game_index, game_snapshot),
                    self.fetched_range.end == old(self).fetched_range.end,
                    self.fetched_range.start <= old(self).fetched_range.start
                        < self.fetched_range.end,
                    forall|i: GameIndex|
                        self.fetched_range.start <= i < self.fetched_range.end
                            ==> #[trigger] self.games@.contains_key(i),
                    self.game_count == old(self).game_count,
                    self.anchor_root == old(self).anchor_root,
                    self.retirement_timestamp == old(self).retirement_timestamp,
                    self.correct_output_roots == old(self).correct_output_roots,
                decreases self.fetched_range.start,
            {
                self.fetched_range.start = self.fetched_range.start - 1;
            }
        }
        true
    }

    /// Whether challenging this game will surely win the bond.
    pub fn should_challenge_game(&self, game: &GameSnapshot, now: u64) -> (r: bool)
        ensures
            r == self.surely_wins(*game, now),
    {
        if !game.can_challenge(now) {
            return false;
        }
        if !game.still_good(self.retirement_timestamp) {
            return false;
        }
        if let Some(parent) = self.games.get(&game.parent_index) {
            if parent.game_status == GameStatus::CHALLENGER_WINS {
                return true;
            }
        }
        if let Some(root) = self.correct_output_roots.get(&game.claim_block) {
            if *root != game.output_root {
                return true;
            }
        }
        false
    }
}

impl Default for State {
    /// Nothing is known.
    fn default() -> (r: Self)
        ensures
            r.wf(),
            r.game_count == 0,
            r.games@ == Map::<GameIndex, GameSnapshot>::empty(),
            r.fetched_range == (0u32..0u32),
            r.anchor_root.is_unset(),
            r.retirement_timestamp == 0,
            r.correct_output_roots@ == Map::<u64, B256>::empty(),
    {
        State {
            game_count: 0,
            games: BTreeMap::new(),
            fetched_range: 0..0,
            anchor_root: AnchorRootSnapshot::default(),
            retirement_timestamp: 0,
            correct_output_roots: BTreeMap::new(),
        }
    }
}

/// There is one full run of games round a given game, so the fetched range is a function of the
/// games that are present and of the first one that was fetched.
pub proof fn full_run_is_unique(
    games: Map<GameIndex, GameSnapshot>,
    a: Range<GameIndex>,
    b: Range<GameIndex>,
    game_index: GameIndex,
)
    requires
        is_full_run(games, a),
        is_full_run(games, b),
        a.start <= game_index < a.end,
        b.start <= game_index < b.end,
    ensures
        a == b,
{
    assert(games.contains_key(game_index));
    if a.start < b.start {
        assert(games.contains_key((b.start - 1) as GameIndex));
    } else if b.start < a.start {
        assert(games.contains_key((a.start - 1) as GameIndex));
    }
    if a.end < b.end {
        assert(games.contains_key(a.end));
    } else if b.end < a.end {
        assert(games.contains_key(b.end));
    }
}

/// A game is left alone if its output root is the correct one and its parent has not lost.
pub proof fn correct_game_is_left_alone(state: &State, game: GameSnapshot, now: u64)
    requires
        state.correct_output_roots@.contains_key(game.claim_block),
        state.correct_output_roots@[game.claim_block] == game.output_root,
        state.games@.contains_key(game.parent_index)
            ==> state.games@[game.parent_index].game_status != GameStatus::CHALLENGER_WINS,
    ensures
        !state.surely_wins(game, now),
{
}

/// A game with a wrong output root is challenged as long as it can be and may still turn out valid.
pub proof fn wrong_game_is_challenged(state: &State, game: GameSnapshot, now: u64)
    requires
        state.correct_output_roots@.contains_key(game.claim_block),
        state.correct_output_roots@[game.claim_block] != game.output_root,
        game.challengeable(now),
        game.good(state.retirement_timestamp),
    ensures
        state.surely_wins(game, now),
{
}

} // verus!
