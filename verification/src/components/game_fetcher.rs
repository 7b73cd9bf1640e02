//! Which games to fetch, and what becomes of them.

use std::collections::BTreeMap;
use std::ops::Range;

use vstd::prelude::*;

use crate::common::contract::ClaimData;
use crate::common::contract::GameStatus;
use crate::common::fixed_bytes::Address;
use crate::common::fixed_bytes::B256;
use crate::common::primitives;
use crate::common::primitives::pick_random_games;
use crate::common::primitives::AnchorRootSnapshot;
use crate::common::primitives::Duration;
use crate::common::primitives::GameIndex;
use crate::common::primitives::GameRangeInclusive;
use crate::common::primitives::GameSnapshot;
use crate::common::state;
use crate::common::state::State;

verus! {

/// How games are fetched.
#[derive(Clone, Copy, Debug, PartialEq, Eq)]
pub struct GameFetcherConfig {
    pub first_game_index: Option<GameIndex>,
    pub last_game_index: Option<GameIndex>,
    pub poll_interval: Duration,
    pub batch_size: usize,
    pub broadcast_channel_capacity: usize,
}

/// What a round of fetching has brought.
#[derive(Debug)]
pub struct SyncResult {
    pub game_count: u32,
    pub anchor_root: AnchorRootSnapshot,
    /// The fetched games, each with whether it is news.
    pub fetched_games: BTreeMap<GameIndex, bool>,
}

/// Where fetching goes on: at the ends of what was fetched, or at the newest game if nothing was.
pub open spec fn frontier(
    game_count: u32,
    fetched_range: Range<GameIndex>,
    bounds: GameRangeInclusive,
) -> Range<GameIndex> {
    if fetched_range.start < fetched_range.end {
        fetched_range
    } else {
        bounds.clamped(game_count)..bounds.clamped(game_count)
    }
}

/// The first `n` of `start, start + 1, ..` up to and without `end`.
pub open spec fn upward(start: GameIndex, end: GameIndex, n: usize) -> Seq<GameIndex> {
    let len = if end <= start {
        0
    } else if end - start < n {
        end - start
    } else {
        n as int
    };
    Seq::new(len as nat, |i: int| (start + i) as GameIndex)
}

/// The first `n` of `end - 1, end - 2, .., 0`.
pub open spec fn downward(end: GameIndex, n: usize) -> Seq<GameIndex> {
    Seq::new(
        (if end < n {
            end as int
        } else {
            n as int
        }) as nat,
        |i: int| (end - 1 - i) as GameIndex,
    )
}

/// No more than the first `n` elements.
pub open spec fn capped(games: Seq<GameIndex>, n: usize) -> Seq<GameIndex> {
    if games.len() <= n {
        games
    } else {
        games.take(n as int)
    }
}

/// All games that may be fetched next: those after the fetched ones, those before them, and
/// `picks` among them.
pub open spec fn fetch_candidates(
    game_count: u32,
    frontier: Range<GameIndex>,
    batch_size: usize,
    picks: Seq<GameIndex>,
) -> Seq<GameIndex> {
    upward(frontier.end, game_count, batch_size) + downward(frontier.start, batch_size) + picks
}

/// The games of a batch: the first of all candidates that lie within bounds.
pub open spec fn batch_of(
    candidates: Seq<GameIndex>,
    bounds: GameRangeInclusive,
    batch_size: usize,
) -> Seq<GameIndex> {
    capped(candidates.filter(|g: GameIndex| bounds.has(g)), batch_size)
}

/// Adds a game to a batch, if it lies within bounds and there is room.
fn try_push(
    next_games: &mut Vec<GameIndex>,
    bounds: &GameRangeInclusive,
    batch_size: usize,
    game_index: GameIndex,
    Ghost(seen): Ghost<Seq<GameIndex>>,
)
    requires
        old(next_games)@ == batch_of(seen, *bounds, batch_size),
    ensures
        final(next_games)@ == batch_of(seen.push(game_index), *bounds, batch_size),
{
    proof {
        reveal(Seq::filter);
        assert(seen.push(game_index).drop_last() =~= seen);
    }
    if next_games.len() < batch_size && bounds.contains(game_index) {
        next_games.push(game_index);
    }
    proof {
        let p = |g: GameIndex| bounds.has(g);
        let f = seen.filter(p);
        assert(seen.push(game_index).filter(p) == if p(game_index) {
            f.push(game_index)
        } else {
            f
        });
        assert(next_games@ =~= batch_of(seen.push(game_index), *bounds, batch_size));
    }
}

/// Decides which games to fetch next. `picks` are the fetched games that may be fetched again.
pub fn plan_fetch(
    game_count: u32,
    start: GameIndex,
    end: GameIndex,
    bounds: &GameRangeInclusive,
    batch_size: usize,
    picks: &Vec<GameIndex>,
) -> (r: Vec<GameIndex>)
    ensures
        r@ == batch_of(
            fetch_candidates(game_count, start..end, batch_size, picks@),
            *bounds,
            batch_size,
        ),
{
    let mut next_games: Vec<GameIndex> = Vec::new();
    let ghost mut seen: Seq<GameIndex> = Seq::empty();
    proof {
        reveal(Seq::filter);
        assert(next_games@ =~= batch_of(seen, *bounds, batch_size));
    }
    let ghost up = upward(end, game_count, batch_size);
    let mut i: GameIndex = end;
    let mut n: usize = 0;
    while i < game_count && n < batch_size
        invariant
            n <= batch_size,
            i == end + n,
            end <= game_count ==> i <= game_count,
            up == upward(end, game_count, batch_size),
            n <= up.len(),
            seen == up.take(n as int),
            next_games@ == batch_of(seen, *bounds, batch_size),
        decreases batch_size - n,
    {
        try_push(&mut next_games, bounds, batch_size, i, Ghost(seen));
        proof {
            assert(up.take(n + 1) =~= seen.push(i));
            seen = seen.push(i);
        }
        i = i + 1;
        n = n + 1;
    }
    assert(seen =~= up);
    let ghost down = downward(start, batch_size);
    let mut j: GameIndex = start;
    let mut m: usize = 0;
    while j > 0 && m < batch_size
        invariant
            m <= batch_size,
            j == start - m,
            down == downward(start, batch_size),
            m <= down.len(),
            seen == up + down.take(m as int),
            next_games@ == batch_of(seen, *bounds, batch_size),
        decreases batch_size - m,
    {
        j = j - 1;
        try_push(&mut next_games, bounds, batch_size, j, Ghost(seen));
        proof {
            assert(up + down.take(m + 1) =~= seen.push(j));
            seen = seen.push(j);
        }
        m = m + 1;
    }
    assert(seen =~= up + down);
    for k in 0..picks.len()
        invariant
            seen == up + down + picks@.take(k as int),
            next_games@ == batch_of(seen, *bounds, batch_size),
    {
        try_push(&mut next_games, bounds, batch_size, picks[k], Ghost(seen));
        proof {
            assert(up + down + picks@.take(k + 1) =~= seen.push(picks@[k as int]));
            seen = seen.push(picks@[k as int]);
        }
    }
    assert(seen =~= fetch_candidates(game_count, start..end, batch_size, picks@));
    next_games
}

/// Decides which games to fetch next: games after those that were fetched, then games before them,
/// then some of them again, picked at random.
pub fn next_games_to_fetch(
    game_count: u32,
    fetched_range: Range<GameIndex>,
    bounded_range: GameRangeInclusive,
    batch_size: usize,
) -> (r: Vec<GameIndex>)
    ensures
        exists|picks: Seq<GameIndex>| #[trigger]
            primitives::is_pick(
                frontier(game_count, fetched_range, bounded_range),
                batch_size,
                picks,
            ) && r@ == batch_of(
                fetch_candidates(
                    game_count,
                    frontier(game_count, fetched_range, bounded_range),
                    batch_size,
                    picks,
                ),
                bounded_range,
                batch_size,
            ),
{
    let (start, end): (GameIndex, GameIndex) = if fetched_range.start < fetched_range.end {
        (fetched_range.start, fetched_range.end)
    } else {
        let game_index: GameIndex = bounded_range.clamp(game_count);
        (game_index, game_index)
    };
    let picks = pick_random_games(start..end, batch_size);
    assert((start..end) == frontier(game_count, fetched_range, bounded_range));
    assert(primitives::is_pick(
        frontier(game_count, fetched_range, bounded_range),
        batch_size,
        picks@,
    ));
    plan_fetch(game_count, start, end, &bounded_range, batch_size, &picks)
}

/// What a filter keeps stands in the sequence, passes the test, and stands there once if nothing
/// stood there twice.
proof fn filter_keeps(games: Seq<GameIndex>, test: spec_fn(GameIndex) -> bool)
    ensures
        forall|i: int|
            0 <= i < games.filter(test).len() ==> test(#[trigger] games.filter(test)[i])
                && games.contains(games.filter(test)[i]),
        games.no_duplicates() ==> games.filter(test).no_duplicates(),
    decreases games.len(),
{
    reveal(Seq::filter);
    if games.len() > 0 {
        let before = games.drop_last();
        let kept = before.filter(test);
        filter_keeps(before, test);
        assert forall|i: int| 0 <= i < games.filter(test).len() implies test(
            #[trigger] games.filter(test)[i],
        ) && games.contains(games.filter(test)[i]) by {
            if i < kept.len() {
                assert(before.contains(kept[i]));
                let k = choose|k: int| 0 <= k < before.len() && before[k] == kept[i];
                assert(games[k] == kept[i]);
            } else {
                assert(games[games.len() - 1] == games.last());
            }
        }
        if games.no_duplicates() {
            assert forall|i: int| 0 <= i < kept.len() implies #[trigger] kept[i]
                != games.last() by {
                assert(before.contains(kept[i]));
            }
        }
    }
}

/// A filter keeps the first element of a sequence in front if it passes the test.
pub(crate) proof fn filter_keeps_first(games: Seq<GameIndex>, test: spec_fn(GameIndex) -> bool)
    requires
        games.len() > 0,
        test(games[0]),
    ensures
        games.filter(test).len() > 0,
        games.filter(test)[0] == games[0],
    decreases games.len(),
{
    reveal(Seq::filter);
    if games.len() > 1 {
        filter_keeps_first(games.drop_last(), test);
    } else {
        assert(games.drop_last().filter(test) =~= Seq::empty());
    }
}

/// No game is fetched twice in a batch, none lies out of bounds, and the batch is not exceeded.
pub proof fn batch_is_sound(
    game_count: u32,
    fetched_range: Range<GameIndex>,
    bounds: GameRangeInclusive,
    batch_size: usize,
    picks: Seq<GameIndex>,
)
    requires
        primitives::is_pick(frontier(game_count, fetched_range, bounds), batch_size, picks),
    ensures
        ({
            let range = frontier(game_count, fetched_range, bounds);
            let batch = batch_of(
                fetch_candidates(game_count, range, batch_size, picks),
                bounds,
                batch_size,
            );
            &&& batch.len() <= batch_size
            &&& batch.no_duplicates()
            &&& forall|i: int| 0 <= i < batch.len() ==> bounds.has(#[trigger] batch[i])
        }),
{
    let range = frontier(game_count, fetched_range, bounds);
    let candidates = fetch_candidates(game_count, range, batch_size, picks);
    let test = |g: GameIndex| bounds.has(g);
    filter_keeps(candidates, test);
    let (up, down) = (upward(range.end, game_count, batch_size), downward(range.start, batch_size));
    assert(picks.no_duplicates());
    assert forall|i: int, j: int|
        0 <= i < candidates.len() && 0 <= j < candidates.len() && i != j implies candidates[i]
        != candidates[j] by {
        let (u, d) = (up.len(), up.len() + down.len());
        if i >= d && j >= d {
            assert(picks[i - d] != picks[j - d]);
        } else if i >= d {
            assert(range.start <= picks[i - d] < range.end);
        } else if j >= d {
            assert(range.start <= picks[j - d] < range.end);
        }
    }
}

/// As long as there is a game after the fetched ones that lies within bounds, fetching goes on with
/// it. If there is none, it goes on with the game before the fetched ones, if that lies within
/// bounds.
pub proof fn frontier_is_fetched_first(
    game_count: u32,
    fetched_range: Range<GameIndex>,
    bounds: GameRangeInclusive,
    batch_size: usize,
    picks: Seq<GameIndex>,
)
    requires
        batch_size > 0,
    ensures
        ({
            let range = frontier(game_count, fetched_range, bounds);
            let batch = batch_of(
                fetch_candidates(game_count, range, batch_size, picks),
                bounds,
                batch_size,
            );
            &&& range.end < game_count && bounds.has(range.end) ==> batch.len() > 0 && batch[0]
                == range.end
            &&& range.end >= game_count && range.start > 0 && bounds.has(
                (range.start - 1) as GameIndex,
            ) ==> batch.len() > 0 && batch[0] == range.start - 1
        }),
{
    let range = frontier(game_count, fetched_range, bounds);
    let candidates = fetch_candidates(game_count, range, batch_size, picks);
    let test = |g: GameIndex| bounds.has(g);
    if range.end < game_count && bounds.has(range.end) {
        assert(candidates[0] == range.end);
        filter_keeps_first(candidates, test);
    }
    if range.end >= game_count && range.start > 0 && bounds.has((range.start - 1) as GameIndex) {
        assert(candidates[0] == range.start - 1);
        filter_keeps_first(candidates, test);
    }
}

/// Why a game cannot be read.
#[derive(Clone, Copy, Debug, PartialEq, Eq)]
pub enum FetchGameError {
    RootClaim,
    L2BlockNumber,
    Status,
    Blacklist,
}

/// What the contracts say of a game. A call that failed has no value.
#[derive(Clone, Copy, Debug, PartialEq, Eq)]
pub struct GameReplies {
    pub game_type: u32,
    pub created_at: u64,
    pub game_address: Address,
    pub root_claim: Option<B256>,
    pub l2_block_number: Option<u64>,
    pub status: Option<GameStatus>,
    pub is_blacklisted: Option<bool>,
    pub starting_block_number: Option<u64>,
    pub parent_index: Option<GameIndex>,
    pub claim_data: Option<ClaimData>,
}

/// `snapshot` is what the replies say. What only some types of games have may be missing: then it
/// is not set.
pub open spec fn is_snapshot_of(replies: GameReplies, snapshot: GameSnapshot) -> bool {
    &&& snapshot.game_type == replies.game_type
    &&& snapshot.created_at == replies.created_at
    &&& snapshot.game_address == replies.game_address
    &&& replies.root_claim == Some(snapshot.output_root)
    &&& replies.l2_block_number == Some(snapshot.claim_block)
    &&& replies.status == Some(snapshot.game_status)
    &&& replies.is_blacklisted == Some(snapshot.is_blacklisted)
    &&& snapshot.start_block == (match replies.starting_block_number {
        Some(n) => n,
        None => 0,
    })
    &&& snapshot.parent_index == (match replies.parent_index {
        Some(n) => n,
        None => 0,
    })
    &&& match replies.claim_data {
        Some(data) => snapshot.claim_data == data,
        None => snapshot.claim_data.is_unset(),
    }
}

/// Puts together what is known of a game.
pub fn assemble_snapshot(replies: &GameReplies) -> (r: Result<GameSnapshot, FetchGameError>)
    ensures
        match r {
            Ok(snapshot) => is_snapshot_of(*replies, snapshot),
            Err(FetchGameError::RootClaim) => replies.root_claim is None,
            Err(FetchGameError::L2BlockNumber) => replies.root_claim is Some
                && replies.l2_block_number is None,
            Err(FetchGameError::Status) => replies.root_claim is Some
                && replies.l2_block_number is Some && replies.status is None,
            Err(FetchGameError::Blacklist) => replies.root_claim is Some
                && replies.l2_block_number is Some && replies.status is Some
                && replies.is_blacklisted is None,
        },
{
    let output_root = match replies.root_claim {
        Some(root) => root,
        None => {
            return Err(FetchGameError::RootClaim);
        },
    };
    let claim_block: u64 = match replies.l2_block_number {
        Some(number) => number,
        None => {
            return Err(FetchGameError::L2BlockNumber);
        },
    };
    let game_status = match replies.status {
        Some(status) => status,
        None => {
            return Err(FetchGameError::Status);
        },
    };
    let is_blacklisted: bool = match replies.is_blacklisted {
        Some(is_blacklisted) => is_blacklisted,
        None => {
            return Err(FetchGameError::Blacklist);
        },
    };
    Ok(
        GameSnapshot {
            game_type: replies.game_type,
            created_at: replies.created_at,
            game_address: replies.game_address,
            output_root,
            claim_block,
            game_status,
            is_blacklisted,
            start_block: match replies.starting_block_number {
                Some(number) => number,
                None => 0,
            },
            parent_index: match replies.parent_index {
                Some(index) => index,
                None => 0,
            },
            claim_data: match replies.claim_data {
                Some(data) => data,
                None => ClaimData::default(),
            },
        },
    )
}

/// Notes how many games there are, and the anchor root.
pub fn store_metadata(state: &mut State, game_count: u32, anchor_root: AnchorRootSnapshot)
    ensures
        final(state).game_count == game_count,
        final(state).anchor_root == anchor_root,
        final(state).games == old(state).games,
        final(state).fetched_range == old(state).fetched_range,
        final(state).retirement_timestamp == old(state).retirement_timestamp,
        final(state).correct_output_roots == old(state).correct_output_roots,
        old(state).wf() ==> final(state).wf(),
{
    state.game_count = game_count;
    state.anchor_root = anchor_root;
}

/// The games `games` after the first `n` of the fetched ones were noted. A game that could not be
/// fetched changes nothing.
pub open spec fn games_after(
    games: Map<GameIndex, GameSnapshot>,
    fetched: Seq<(GameIndex, Option<GameSnapshot>)>,
    n: nat,
) -> Map<GameIndex, GameSnapshot>
    decreases n,
{
    if n == 0 {
        games
    } else {
        let before = games_after(games, fetched, (n - 1) as nat);
        match fetched[n - 1].1 {
            Some(snapshot) => before.insert(fetched[n - 1].0, snapshot),
            None => before,
        }
    }
}

/// The games among the first `n` of the fetched ones that could be fetched, each with whether it is
/// news.
pub open spec fn news_of(
    games: Map<GameIndex, GameSnapshot>,
    fetched: Seq<(GameIndex, Option<GameSnapshot>)>,
    n: nat,
) -> Map<GameIndex, bool>
    decreases n,
{
    if n == 0 {
        Map::empty()
    } else {
        let before = games_after(games, fetched, (n - 1) as nat);
        let news = news_of(games, fetched, (n - 1) as nat);
        let i = fetched[n - 1].0;
        match fetched[n - 1].1 {
            Some(snapshot) => news.insert(i, !(before.contains_key(i) && before[i] == snapshot)),
            None => news,
        }
    }
}

/// The entry at `k` is the first of the fetched games that could be fetched.
pub open spec fn is_first_stored(fetched: Seq<(GameIndex, Option<GameSnapshot>)>, k: int) -> bool {
    &&& 0 <= k < fetched.len()
    &&& fetched[k].1 is Some
    &&& forall|j: int| 0 <= j < k ==> (#[trigger] fetched[j]).1 is None
}

/// What becomes of the fetched range `before` once a batch is noted: it gives up no game; where it
/// was empty, it holds the first game that could be fetched, and where there is none, it stays as it
/// is.
pub open spec fn is_range_after(
    before: Range<GameIndex>,
    fetched: Seq<(GameIndex, Option<GameSnapshot>)>,
    after: Range<GameIndex>,
) -> bool {
    if before.start < before.end {
        after.start <= before.start && before.end <= after.end
    } else {
        &&& forall|k: int| #[trigger]
            is_first_stored(fetched, k) ==> after.start <= fetched[k].0 < after.end
        &&& (forall|j: int| 0 <= j < fetched.len() ==> (#[trigger] fetched[j]).1 is None)
            ==> after == before
    }
}

/// Some entry comes first among those that could be fetched, if there is one.
proof fn first_stored_exists(fetched: Seq<(GameIndex, Option<GameSnapshot>)>, i: int) -> (k: int)
    requires
        0 <= i < fetched.len(),
        fetched[i].1 is Some,
    ensures
        is_first_stored(fetched, k),
    decreases i,
{
    if is_first_stored(fetched, i) {
        i
    } else {
        let j = choose|j: int| 0 <= j < i && (#[trigger] fetched[j]).1 is Some;
        first_stored_exists(fetched, j)
    }
}

/// The fetched range is fixed by the games that are present, the range before and the batch.
pub proof fn range_after_is_unique(
    games: Map<GameIndex, GameSnapshot>,
    before: Range<GameIndex>,
    fetched: Seq<(GameIndex, Option<GameSnapshot>)>,
    a: Range<GameIndex>,
    b: Range<GameIndex>,
)
    requires
        state::is_full_run(games, a),
        state::is_full_run(games, b),
        is_range_after(before, fetched, a),
        is_range_after(before, fetched, b),
    ensures
        a == b,
{
    if before.start < before.end {
        state::full_run_is_unique(games, a, b, before.start);
    } else if exists|i: int| 0 <= i < fetched.len() && (#[trigger] fetched[i]).1 is Some {
        let i = choose|i: int| 0 <= i < fetched.len() && (#[trigger] fetched[i]).1 is Some;
        let k = first_stored_exists(fetched, i);
        state::full_run_is_unique(games, a, b, fetched[k].0);
    }
}

/// Notes the games of a batch. Returns those that could be fetched, each with whether it is news.
pub fn store_fetched_games(
    state: &mut State,
    fetched: &Vec<(GameIndex, Option<GameSnapshot>)>,
) -> (r: BTreeMap<GameIndex, bool>)
    requires
        old(state).wf(),
        forall|i: int| 0 <= i < fetched@.len() ==> (#[trigger] fetched@[i]).0 < GameIndex::MAX,
    ensures
        final(state).wf(),
        final(state).games@ == games_after(old(state).games@, fetched@, fetched@.len()),
        r@ == news_of(old(state).games@, fetched@, fetched@.len()),
        is_range_after(old(state).fetched_range, fetched@, final(state).fetched_range),
        final(state).game_count == old(state).game_count,
        final(state).anchor_root == old(state).anchor_root,
        final(state).retirement_timestamp == old(state).retirement_timestamp,
        final(state).correct_output_roots == old(state).correct_output_roots,
{
    let mut news: BTreeMap<GameIndex, bool> = BTreeMap::new();
    for n in 0..fetched.len()
        invariant
            forall|i: int| 0 <= i < fetched@.len() ==> (#[trigger] fetched@[i]).0 < GameIndex::MAX,
            state.wf(),
            state.games@ == games_after(old(state).games@, fetched@, n as nat),
            news@ == news_of(old(state).games@, fetched@, n as nat),
            old(state).fetched_range.start < old(state).fetched_range.end ==> {
                &&& state.fetched_range.start <= old(state).fetched_range.start
                &&& old(state).fetched_range.end <= state.fetched_range.end
            },
            old(state).fetched_range.start >= old(state).fetched_range.end ==> {
                &&& forall|k: int| #[trigger]
                    is_first_stored(fetched@, k) && k < n ==> state.fetched_range.start
                        <= fetched@[k].0 < state.fetched_range.end
                &&& (forall|j: int| 0 <= j < n ==> (#[trigger] fetched@[j]).1 is None)
                    ==> state.fetched_range == old(state).fetched_range
            },
            state.game_count == old(state).game_count,
            state.anchor_root == old(state).anchor_root,
            state.retirement_timestamp == old(state).retirement_timestamp,
            state.correct_output_roots == old(state).correct_output_roots,
    {
        assert(fetched@[n as int].0 < GameIndex::MAX);
        let (game_index, snapshot) = fetched[n];
        if let Some(snapshot) = snapshot {
            let changed: bool = state.insert_game(game_index, snapshot);
            news.insert(game_index, changed);
        }
    }
    news
}

/// One of the fetched games is news.
pub open spec fn has_news(fetched_games: Map<GameIndex, bool>) -> bool {
    exists|i: GameIndex| #[trigger] fetched_games.contains_key(i) && fetched_games[i]
}

/// Whether there is news among the fetched games.
pub fn any_changed(fetched_games: &BTreeMap<GameIndex, bool>) -> (r: bool)
    ensures
        r == has_news(fetched_games@),
{
    for entry in it: fetched_games.iter()
        invariant
            forall|k: GameIndex| #[trigger]
                fetched_games@.contains_key(k) ==> it.seq().contains((&k, &fetched_games@[k])),
            forall|j: int| 0 <= j < it.index() ==> !*(#[trigger] it.seq()[j]).1,
    {
        assert(fetched_games@.contains_key(*it.seq()[it.index()].0));
        if *entry.1 {
            return true;
        }
    }
    false
}

/// The answer to a request for a round of fetching: whether any game has changed.
pub fn sync_answer(result: &SyncResult) -> (r: bool)
    ensures
        r == has_news(result.fetched_games@),
{
    any_changed(&result.fetched_games)
}

} // verus!
