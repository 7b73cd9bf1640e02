//! Where new games build on, in terms of games, their parents and the blocks that they claim.

use std::ops::Range;

use vstd::prelude::*;

use crate::common::contract::GameStatus;
use crate::common::primitives::GameIndex;
use crate::common::state::State;
use crate::components::game_creator;
use crate::components::game_creator::get_canonical_head;
use crate::components::game_creator::range_of_possible_canonical_head;

verus! {

/// The anchor root has not been fetched: its root, its block and its game are all zero.
pub open spec fn lacks_anchor_root(state: &State) -> bool {
    &&& forall|k: int| 0 <= k < 32 ==> #[trigger] state.anchor_root.output_root.bytes@[k] == 0
    &&& state.anchor_root.claim_block == 0
    &&& forall|k: int| 0 <= k < 20 ==> #[trigger] state.anchor_root.anchor_game.bytes@[k] == 0
}

/// The game was created at the retirement or before it.
pub open spec fn is_known_retired(state: &State, i: GameIndex) -> bool {
    state.games@.contains_key(i) && state.games@[i].created_at <= state.retirement_timestamp
}

/// The game is the one that the anchor root comes from.
pub open spec fn is_known_anchor(state: &State, i: GameIndex) -> bool {
    state.games@.contains_key(i) && state.games@[i].game_address == state.anchor_root.anchor_game
}

/// The canonical head is looked for from `first` on: none of the games from there on is retired, and
/// none after `first` is the anchor game. There is a reason to start there: the game before it is
/// retired, or it is the anchor game, or there is no game before it.
pub open spec fn starts_search(state: &State, first: GameIndex) -> bool {
    &&& state.fetched_range.start <= first <= state.game_count
    &&& forall|j: GameIndex|
        first <= j < state.game_count ==> !#[trigger] is_known_retired(state, j)
    &&& forall|j: GameIndex|
        first < j < state.game_count ==> !#[trigger] is_known_anchor(state, j)
    &&& {
        ||| state.fetched_range.start < first && is_known_retired(state, (first - 1) as GameIndex)
        ||| first < state.game_count && is_known_anchor(state, first)
        ||| first == 0
    }
}

/// A game that may still turn out valid.
pub open spec fn may_be_valid(state: &State, i: GameIndex) -> bool {
    &&& state.games@.contains_key(i)
    &&& !state.games@[i].is_blacklisted
    &&& state.games@[i].created_at > state.retirement_timestamp
    &&& state.games@[i].game_status != GameStatus::CHALLENGER_WINS
}

/// The games that a line may begin with: the anchor game alone, if the search starts with it and it
/// may be valid; otherwise every game that builds on no other game but on the anchor root's block.
pub open spec fn may_begin(state: &State, first: GameIndex, i: GameIndex) -> bool {
    if first < state.game_count && is_known_anchor(state, first) && may_be_valid(state, first) {
        i == first
    } else {
        state.games@[i].parent_index == GameIndex::MAX && state.games@[i].start_block
            == state.anchor_root.claim_block
    }
}

/// A line of games from `first` on that may all be valid. Each is the parent of the next, which was
/// created after it.
pub open spec fn is_descent(state: &State, first: GameIndex, line: Seq<GameIndex>) -> bool {
    &&& line.len() > 0
    &&& may_begin(state, first, line[0])
    &&& forall|k: int|
        0 <= k < line.len() ==> first <= #[trigger] line[k] < state.game_count && may_be_valid(
            state,
            line[k],
        )
    &&& forall|k: int|
        1 <= k < line.len() ==> line[k - 1] < #[trigger] line[k]
            && state.games@[line[k]].parent_index == line[k - 1]
}

/// There is one place where the search starts.
proof fn search_start_is_unique(state: &State, a: GameIndex, b: GameIndex)
    requires
        starts_search(state, a),
        starts_search(state, b),
    ensures
        a == b,
{
    let (low, high) = if a < b {
        (a, b)
    } else {
        (b, a)
    };
    if low < high {
        if state.fetched_range.start < high && is_known_retired(state, (high - 1) as GameIndex) {
            assert(low <= high - 1 < state.game_count);
        } else {
            assert(is_known_anchor(state, high));
        }
    }
}

proof fn anchor_root_is_lacking(state: &State)
    ensures
        lacks_anchor_root(state) <==> state.anchor_root.is_unset(),
{
    let root = state.anchor_root.output_root;
    let game = state.anchor_root.anchor_game;
    assert(forall|k: int| 0 <= k < 32 ==> #[trigger] root.bytes@[k] == root@[k]);
    assert(forall|k: int| 0 <= k < 20 ==> #[trigger] game.bytes@[k] == game@[k]);
}

proof fn head_search_starts(state: &State)
    requires
        state.fetched_range.start <= state.fetched_range.end,
    ensures
        game_creator::possible_heads(state) matches Some(range) ==> {
            &&& state.fetched_range.end == state.game_count
            &&& !lacks_anchor_root(state)
            &&& starts_search(state, range.start)
            &&& range.end == state.game_count
        },
        game_creator::possible_heads(state) is None ==> {
            ||| state.fetched_range.end != state.game_count
            ||| lacks_anchor_root(state)
            ||| state.fetched_range.start > 0 && forall|j: GameIndex|
                state.fetched_range.start <= j < state.game_count ==> !#[trigger] is_known_retired(
                    state,
                    j,
                ) && !is_known_anchor(state, j)
        },
{
    anchor_root_is_lacking(state);
    if state.fetched_range.end == state.game_count && !state.anchor_root.is_unset() {
        if exists|i: GameIndex| game_creator::is_last_marker(state, i) {
            let i = choose|i: GameIndex| game_creator::is_last_marker(state, i);
            let first = if is_known_retired(state, i) {
                (i + 1) as GameIndex
            } else {
                i
            };
            assert forall|j: GameIndex| first <= j < state.game_count implies !#[trigger] is_known_retired(
                state,
                j,
            ) by {
                assert(j == i || !game_creator::is_marker(state, j));
            }
            assert forall|j: GameIndex| first < j < state.game_count implies !#[trigger] is_known_anchor(
                state,
                j,
            ) by {
                assert(!game_creator::is_marker(state, j));
            }
            assert(starts_search(state, first));
        } else {
            assert forall|j: GameIndex|
                state.fetched_range.start <= j < state.game_count implies !#[trigger] is_known_retired(
                state,
                j,
            ) && !is_known_anchor(state, j) by {
                if game_creator::is_marker(state, j) {
                    last_marker_exists(state, j);
                }
            }
            assert forall|j: GameIndex|
                state.fetched_range.start <= j < state.game_count implies !#[trigger] is_known_anchor(
                state,
                j,
            ) by {
                if game_creator::is_marker(state, j) {
                    last_marker_exists(state, j);
                }
            }
            assert(state.fetched_range.start == 0 ==> starts_search(state, 0));
        }
    }
}

/// The search runs from one place to the newest game. It waits as long as the newest game, the anchor
/// root, or the place where it starts has not been fetched.
pub proof fn search_starts_behind_retired_games(state: &State, r: Option<Range<GameIndex>>)
    requires
        state.fetched_range.start <= state.fetched_range.end,
        call_ensures(range_of_possible_canonical_head, (state,), r),
    ensures
        r matches Some(range) ==> {
            &&& state.fetched_range.end == state.game_count
            &&& !lacks_anchor_root(state)
            &&& starts_search(state, range.start)
            &&& range.end == state.game_count
        },
        r is None ==> {
            ||| state.fetched_range.end != state.game_count
            ||| lacks_anchor_root(state)
            ||| state.fetched_range.start > 0 && forall|j: GameIndex|
                state.fetched_range.start <= j < state.game_count ==> !#[trigger] is_known_retired(
                    state,
                    j,
                ) && !is_known_anchor(state, j)
        },
{
    head_search_starts(state);
}

proof fn last_marker_exists(state: &State, i: GameIndex)
    requires
        state.fetched_range.start <= i < state.fetched_range.end,
        game_creator::is_marker(state, i),
    ensures
        exists|k: GameIndex| game_creator::is_last_marker(state, k),
    decreases state.fetched_range.end - i,
{
    if !game_creator::is_last_marker(state, i) {
        let j = choose|j: GameIndex|
            i < j < state.fetched_range.end && #[trigger] game_creator::is_marker(state, j);
        last_marker_exists(state, j);
    }
}

/// A line may begin with the games that the search begins with.
proof fn line_begins_with_starting_point(state: &State, first: GameIndex, i: GameIndex)
    requires
        starts_search(state, first),
    ensures
        may_begin(state, first, i) <==> game_creator::is_starting_point(
            state,
            first..state.game_count,
            i,
        ),
{
    let range = first..state.game_count;
    assert forall|j: GameIndex| #[trigger]
        game_creator::is_anchor_game(state, range, j) implies j == first by {
        assert(is_known_anchor(state, j));
    }
    if first < state.game_count && is_known_anchor(state, first) && may_be_valid(state, first) {
        assert(game_creator::is_anchor_game(state, range, first));
        assert(game_creator::is_anchor(state, range, first));
    } else {
        assert(!game_creator::is_anchor_game(state, range, first));
        assert forall|a: GameIndex| !game_creator::is_anchor(state, range, a) by {
            assert(!game_creator::is_anchor_game(state, range, a));
        }
    }
}

/// Every game of a line is found by the search.
proof fn descent_is_found(state: &State, first: GameIndex, line: Seq<GameIndex>, k: int)
    requires
        starts_search(state, first),
        is_descent(state, first, line),
        0 <= k < line.len(),
    ensures
        game_creator::is_candidate(state, first..state.game_count, line[k]),
    decreases k,
{
    assert(may_be_valid(state, line[k]));
    if k == 0 {
        line_begins_with_starting_point(state, first, line[0]);
    } else {
        descent_is_found(state, first, line, k - 1);
        assert(state.games@[line[k]].parent_index == line[k - 1]);
    }
}

/// Every game that the search finds ends a line.
proof fn found_game_has_descent(state: &State, first: GameIndex, i: GameIndex) -> (line: Seq<
    GameIndex,
>)
    requires
        starts_search(state, first),
        game_creator::is_candidate(state, first..state.game_count, i),
    ensures
        is_descent(state, first, line),
        line.last() == i,
    decreases i,
{
    line_begins_with_starting_point(state, first, i);
    if game_creator::is_starting_point(state, first..state.game_count, i) {
        seq![i]
    } else {
        let line = found_game_has_descent(state, first, state.games@[i].parent_index);
        line.push(i)
    }
}

/// No game that descends through valid games claims a higher block than the canonical head, and none
/// that claims the same block is newer than it.
pub proof fn head_claims_highest_block(
    state: &State,
    head: (GameIndex, u64),
    first: GameIndex,
    line: Seq<GameIndex>,
)
    requires
        state.fetched_range.start <= state.fetched_range.end,
        call_ensures(get_canonical_head, (state,), Some(head)),
        starts_search(state, first),
        is_descent(state, first, line),
    ensures
        state.games@[line.last()].claim_block <= head.1,
        state.games@[line.last()].claim_block == head.1 ==> line.last() <= head.0,
        head.0 < state.game_count,
{
    let range = game_creator::possible_heads(state)->0;
    head_search_starts(state);
    search_start_is_unique(state, first, range.start);
    descent_is_found(state, first, line, line.len() - 1);
}

/// The canonical head ends a line of valid games, and its block is the one that this game claims.
/// Where there is no such line, the head is the anchor root: it has no game, and its block is that
/// of the anchor root.
pub proof fn head_ends_a_line(state: &State, head: (GameIndex, u64), first: GameIndex)
    requires
        state.fetched_range.start <= state.fetched_range.end,
        call_ensures(get_canonical_head, (state,), Some(head)),
        starts_search(state, first),
    ensures
        if exists|line: Seq<GameIndex>| is_descent(state, first, line) {
            &&& exists|line: Seq<GameIndex>| is_descent(state, first, line) && line.last() == head.0
            &&& state.games@[head.0].claim_block == head.1
        } else {
            head == (GameIndex::MAX, state.anchor_root.claim_block)
        },
{
    let range = game_creator::possible_heads(state)->0;
    head_search_starts(state);
    search_start_is_unique(state, first, range.start);
    if exists|i: GameIndex| game_creator::is_candidate(state, range, i) {
        let line = found_game_has_descent(state, first, head.0);
        assert(is_descent(state, first, line) && line.last() == head.0);
    } else if exists|line: Seq<GameIndex>| is_descent(state, first, line) {
        let line = choose|line: Seq<GameIndex>| is_descent(state, first, line);
        descent_is_found(state, first, line, 0);
    }
}

/// There is a canonical head once the newest game, the anchor root and the place where the search
/// starts have been fetched.
pub proof fn head_is_known_once_fetched(
    state: &State,
    head: Option<(GameIndex, u64)>,
    first: GameIndex,
)
    requires
        state.fetched_range.start <= state.fetched_range.end,
        call_ensures(get_canonical_head, (state,), head),
    ensures
        head is Some ==> state.fetched_range.end == state.game_count && !lacks_anchor_root(state),
        head is Some ==> exists|i: GameIndex| starts_search(state, i),
        state.fetched_range.end == state.game_count && !lacks_anchor_root(state) && starts_search(
            state,
            first,
        ) ==> head is Some,
{
    anchor_root_is_lacking(state);
    if head is Some {
        head_search_starts(state);
    } else if state.fetched_range.end == state.game_count && !lacks_anchor_root(state)
        && starts_search(state, first) {
        if state.fetched_range.start < first && is_known_retired(state, (first - 1) as GameIndex) {
            last_marker_exists(state, (first - 1) as GameIndex);
        } else if first < state.game_count && is_known_anchor(state, first) {
            last_marker_exists(state, first);
        }
    }
}

} // verus!
