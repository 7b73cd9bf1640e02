//! Which games are challenged, in terms of what is known of a game, of its parent and of the chain.

use std::collections::BTreeMap;

use vstd::prelude::*;

use crate::common::contract::GameStatus;
use crate::common::contract::ProposalStatus;
use crate::common::fixed_bytes::Address;
use crate::common::primitives::GameIndex;
use crate::common::primitives::GameSnapshot;
use crate::common::state;
use crate::common::state::State;
use crate::components::game_challenger::next_games_to_challenge;

verus! {

/// The contract takes a challenge of this game at `now`, and the game does not lose without one: it
/// is in progress, neither challenged nor proved, not past its deadline, not blacklisted, and
/// created after the retirement.
pub open spec fn is_open(game: GameSnapshot, now: u64, retirement_timestamp: u64) -> bool {
    &&& game.game_status == GameStatus::IN_PROGRESS
    &&& game.claim_data.status == ProposalStatus::Unchallenged
    &&& now <= game.claim_data.deadline
    &&& forall|i: int| 0 <= i < 20 ==> #[trigger] game.claim_data.prover.bytes@[i] == 0
    &&& !game.is_blacklisted
    &&& retirement_timestamp < game.created_at
}

/// A game whose parent has lost is challenged as long as it is open, whatever is known of the output
/// root of the block that it claims.
pub proof fn child_of_lost_game_is_challenged(
    state: &State,
    game: &GameSnapshot,
    now: u64,
    answer: bool,
)
    requires
        call_ensures(State::should_challenge_game, (state, game, now), answer),
        is_open(*game, now, state.retirement_timestamp),
        state.games@.contains_key(game.parent_index),
        state.games@[game.parent_index].game_status == GameStatus::CHALLENGER_WINS,
    ensures
        answer,
{
}

/// A game that claims another output root than the correct one of its block is challenged as long as
/// it is open, whatever is known of its parent.
pub proof fn game_with_wrong_root_is_challenged(
    state: &State,
    game: &GameSnapshot,
    now: u64,
    answer: bool,
)
    requires
        call_ensures(State::should_challenge_game, (state, game, now), answer),
        is_open(*game, now, state.retirement_timestamp),
        state.correct_output_roots@.contains_key(game.claim_block),
        state.correct_output_roots@[game.claim_block].bytes@ != game.output_root.bytes@,
    ensures
        answer,
{
}

/// Only open games are challenged, and only for a reason: a parent that has lost, or an output root
/// that is known to be wrong.
pub proof fn challenge_has_a_reason(state: &State, game: &GameSnapshot, now: u64, answer: bool)
    requires
        call_ensures(State::should_challenge_game, (state, game, now), answer),
        answer,
    ensures
        is_open(*game, now, state.retirement_timestamp),
        state.games@.contains_key(game.parent_index) && state.games@[game.parent_index].game_status
            == GameStatus::CHALLENGER_WINS || (state.correct_output_roots@.contains_key(
            game.claim_block,
        ) && state.correct_output_roots@[game.claim_block].bytes@ != game.output_root.bytes@),
{
    assert(forall|i: int|
        0 <= i < 20 ==> #[trigger] game.claim_data.prover.bytes@[i] == game.claim_data.prover@[i]);
    if state.correct_output_roots@.contains_key(game.claim_block) {
        crate::common::fixed_bytes::B256::same_view(
            state.correct_output_roots@[game.claim_block],
            game.output_root,
        );
    }
}

/// The games to challenge are those of the known games for which challenging is the answer, each
/// with its address.
pub proof fn games_to_challenge_are_complete(
    state: &State,
    now: u64,
    games: BTreeMap<GameIndex, Address>,
    i: GameIndex,
    game: &GameSnapshot,
    answer: bool,
)
    requires
        call_ensures(next_games_to_challenge, (state, now), games),
        state.games@.contains_key(i),
        state.games@[i] == *game,
        call_ensures(State::should_challenge_game, (state, game, now), answer),
    ensures
        games@.contains_key(i) <==> answer,
        games@.contains_key(i) ==> games@[i] == game.game_address,
{
}

/// No game is challenged that is not known.
pub proof fn unknown_game_is_not_challenged(
    state: &State,
    now: u64,
    games: BTreeMap<GameIndex, Address>,
    i: GameIndex,
)
    requires
        call_ensures(next_games_to_challenge, (state, now), games),
        games@.contains_key(i),
    ensures
        state.games@.contains_key(i),
{
}

/// A game can be challenged until its deadline, and not after it; a game that was proved cannot be
/// challenged at any time.
pub proof fn challenges_end_with_deadline_or_proof(
    game: &GameSnapshot,
    now: u64,
    over: bool,
    can_challenge: bool,
)
    requires
        call_ensures(GameSnapshot::is_over, (game, now), over),
        call_ensures(GameSnapshot::can_challenge, (game, now), can_challenge),
    ensures
        game.claim_data.deadline < now ==> over,
        (exists|i: int| 0 <= i < 20 && #[trigger] game.claim_data.prover.bytes@[i] != 0) ==> over,
        now <= game.claim_data.deadline && (forall|i: int|
            0 <= i < 20 ==> #[trigger] game.claim_data.prover.bytes@[i] == 0) ==> !over,
        over ==> !can_challenge,
        can_challenge <==> !over && game.game_status == GameStatus::IN_PROGRESS
            && game.claim_data.status == ProposalStatus::Unchallenged,
{
    assert(forall|i: int|
        0 <= i < 20 ==> #[trigger] game.claim_data.prover.bytes@[i] == game.claim_data.prover@[i]);
    if exists|i: int| 0 <= i < 20 && #[trigger] game.claim_data.prover.bytes@[i] != 0 {
        let i = choose|i: int| 0 <= i < 20 && #[trigger] game.claim_data.prover.bytes@[i] != 0;
        assert(game.claim_data.prover@[i] != 0);
    }
}

/// A game is retired if it was created at the retirement or before it. What is retired, blacklisted
/// or lost is not good any more, and nothing else is.
pub proof fn games_go_bad_in_three_ways(
    game: &GameSnapshot,
    retirement_timestamp: u64,
    retired: bool,
    good: bool,
)
    requires
        call_ensures(GameSnapshot::is_retired, (game, retirement_timestamp), retired),
        call_ensures(GameSnapshot::still_good, (game, retirement_timestamp), good),
    ensures
        retired <==> game.created_at <= retirement_timestamp,
        !good <==> retired || game.is_blacklisted || game.game_status
            == GameStatus::CHALLENGER_WINS,
{
}

/// A game that is noted is known from then on as it was given, and nothing changes about the others.
/// It is news unless the same was known of it before.
pub proof fn noted_game_is_known(
    state: &mut State,
    game_index: GameIndex,
    snapshot: GameSnapshot,
    is_news: bool,
    other: GameIndex,
)
    requires
        call_ensures(State::insert_game, (state, game_index, snapshot), is_news),
    ensures
        final(state).games@.contains_key(game_index),
        final(state).games@[game_index] == snapshot,
        other != game_index ==> {
            &&& final(state).games@.contains_key(other) <==> old(state).games@.contains_key(other)
            &&& old(state).games@.contains_key(other) ==> final(state).games@[other]
                == old(state).games@[other]
        },
        is_news <==> final(state).games@ != old(state).games@,
{
    if !is_news {
        assert(final(state).games@ =~= old(state).games@);
    } else if old(state).games@.contains_key(game_index) {
        assert(final(state).games@[game_index] != old(state).games@[game_index]);
    }
}

/// What is noted a second time is no news, and changes nothing.
pub proof fn noting_twice_is_no_news(
    first: &mut State,
    second: &mut State,
    game_index: GameIndex,
    snapshot: GameSnapshot,
    is_news: bool,
    is_news_again: bool,
)
    requires
        call_ensures(State::insert_game, (first, game_index, snapshot), is_news),
        *second == *final(first),
        call_ensures(State::insert_game, (second, game_index, snapshot), is_news_again),
    ensures
        !is_news_again,
        final(second).games@ == final(first).games@,
        final(second).fetched_range == final(first).fetched_range,
{
    assert(final(second).games@ =~= final(first).games@);
    let (a, b) = (final(first).fetched_range, final(second).fetched_range);
    assert(final(first).games@.contains_key(game_index));
    assert(a.start < a.end);
    state::full_run_is_unique(final(first).games@, a, b, a.start);
}

/// The fetched range holds known games only and has no known neighbour. It never gives up a game,
/// and the first game makes it a range of that game alone.
pub proof fn fetched_range_has_no_gap(
    state: &mut State,
    game_index: GameIndex,
    snapshot: GameSnapshot,
    is_news: bool,
    i: GameIndex,
)
    requires
        call_ensures(State::insert_game, (state, game_index, snapshot), is_news),
    ensures
        final(state).fetched_range.start < final(state).fetched_range.end,
        final(state).fetched_range.start <= i < final(state).fetched_range.end
            ==> final(state).games@.contains_key(i),
        i == final(state).fetched_range.end ==> !final(state).games@.contains_key(i),
        i + 1 == final(state).fetched_range.start ==> !final(state).games@.contains_key(i),
        old(state).fetched_range.start <= i < old(state).fetched_range.end
            ==> final(state).fetched_range.start <= i < final(state).fetched_range.end,
        old(state).fetched_range.start == old(state).fetched_range.end
            ==> final(state).fetched_range.start == game_index && final(state).fetched_range.end
            == game_index + 1,
{
    assert(final(state).games@.contains_key(game_index));
}

} // verus!
