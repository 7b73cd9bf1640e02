//! What fetching brings, in terms of the games that are known before and after.

use std::collections::BTreeMap;
use std::ops::Range;

use vstd::prelude::*;

use crate::common::primitives;
use crate::common::primitives::GameIndex;
use crate::common::primitives::GameRangeInclusive;
use crate::common::primitives::GameSnapshot;
use crate::common::state::State;
use crate::components::game_fetcher;
use crate::components::game_fetcher::next_games_to_fetch;
use crate::components::game_fetcher::plan_fetch;
use crate::components::game_fetcher::store_fetched_games;
use crate::components::game_fetcher::sync_answer;
use crate::components::game_fetcher::SyncResult;

verus! {

/// No index stands twice in a batch.
pub open spec fn is_distinct(fetched: Seq<(GameIndex, Option<GameSnapshot>)>) -> bool {
    forall|a: int, b: int|
        0 <= a < b < fetched.len() ==> (#[trigger] fetched[a]).0 != (#[trigger] fetched[b]).0
}

/// The entry at `k` is the last of the batch that brings the game `i`.
pub open spec fn brings_last(
    fetched: Seq<(GameIndex, Option<GameSnapshot>)>,
    i: GameIndex,
    k: int,
) -> bool {
    &&& 0 <= k < fetched.len()
    &&& fetched[k].0 == i
    &&& fetched[k].1 is Some
    &&& forall|j: int|
        k < j < fetched.len() && (#[trigger] fetched[j]).0 == i ==> fetched[j].1 is None
}

/// The batch brings the game `i`.
pub open spec fn brings(fetched: Seq<(GameIndex, Option<GameSnapshot>)>, i: GameIndex) -> bool {
    exists|k: int|
        0 <= k < fetched.len() && (#[trigger] fetched[k]).0 == i && fetched[k].1 is Some
}

proof fn games_after_batch(
    games: Map<GameIndex, GameSnapshot>,
    fetched: Seq<(GameIndex, Option<GameSnapshot>)>,
    n: nat,
    i: GameIndex,
)
    requires
        n <= fetched.len(),
    ensures
        ({
            let seen = fetched.take(n as int);
            let after = game_fetcher::games_after(games, fetched, n);
            let news = game_fetcher::news_of(games, fetched, n);
            &&& !brings(seen, i) ==> {
                &&& after.contains_key(i) <==> games.contains_key(i)
                &&& games.contains_key(i) ==> after[i] == games[i]
                &&& !news.contains_key(i)
            }
            &&& forall|k: int| #[trigger]
                brings_last(seen, i, k) ==> {
                    &&& after.contains_key(i)
                    &&& after[i] == fetched[k].1->0
                    &&& news.contains_key(i)
                }
            &&& is_distinct(fetched) && brings(seen, i) ==> (!news[i] <==> games.contains_key(i)
                && games[i] == after[i])
        }),
    decreases n,
{
    let seen = fetched.take(n as int);
    if n > 0 {
        let m = (n - 1) as nat;
        let before = fetched.take(m as int);
        games_after_batch(games, fetched, m, i);
        let entry = fetched[m as int];
        assert(forall|k: int| 0 <= k < m ==> #[trigger] seen[k] == before[k]);
        assert(seen[m as int] == entry);
        if entry.0 == i && entry.1 is Some {
            assert(brings(seen, i));
            assert forall|k: int| #[trigger] brings_last(seen, i, k) implies k == m by {
                if k < m {
                    assert(seen[m as int].0 == i);
                }
            }
            if is_distinct(fetched) {
                assert(!brings(before, i)) by {
                    if brings(before, i) {
                        let k = choose|k: int|
                            0 <= k < before.len() && (#[trigger] before[k]).0 == i
                                && before[k].1 is Some;
                        assert(fetched[k].0 == fetched[m as int].0);
                    }
                }
            }
        } else {
            assert(brings(seen, i) ==> brings(before, i)) by {
                if brings(seen, i) {
                    let k = choose|k: int|
                        0 <= k < seen.len() && (#[trigger] seen[k]).0 == i && seen[k].1 is Some;
                    assert(before[k] == seen[k]);
                }
            }
            assert(brings(before, i) ==> brings(seen, i)) by {
                if brings(before, i) {
                    let k = choose|k: int|
                        0 <= k < before.len() && (#[trigger] before[k]).0 == i && before[k].1
                            is Some;
                    assert(seen[k] == before[k]);
                }
            }
            assert forall|k: int| #[trigger] brings_last(seen, i, k) implies brings_last(
                before,
                i,
                k,
            ) by {
                assert(before[k] == seen[k]);
                assert forall|j: int|
                    k < j < before.len() && (#[trigger] before[j]).0 == i implies before[j].1
                    is None by {
                    assert(seen[j] == before[j]);
                }
            }
        }
    }
}

/// A batch in which no index stands twice is reported in full: there is a flag for each game that
/// could be fetched and for no other. The flag says that the game is news, unless the very same was
/// known of it before.
pub proof fn every_change_is_reported(
    state: &mut State,
    fetched: &Vec<(GameIndex, Option<GameSnapshot>)>,
    news: BTreeMap<GameIndex, bool>,
    i: GameIndex,
)
    requires
        call_ensures(store_fetched_games, (state, fetched), news),
        is_distinct(fetched@),
    ensures
        news@.contains_key(i) <==> exists|k: int|
            0 <= k < fetched@.len() && (#[trigger] fetched@[k]).0 == i && fetched@[k].1 is Some,
        forall|k: int|
            0 <= k < fetched@.len() && (#[trigger] fetched@[k]).0 == i && fetched@[k].1 is Some
                ==> (news@[i] == false <==> old(state).games@.contains_key(i)
                && old(state).games@[i] == fetched@[k].1->0),
{
    let n = fetched@.len();
    assert(fetched@.take(n as int) =~= fetched@);
    games_after_batch(old(state).games@, fetched@, n, i);
    if brings(fetched@, i) {
        let k = choose|k: int|
            0 <= k < fetched@.len() && (#[trigger] fetched@[k]).0 == i && fetched@[k].1 is Some;
        assert(brings_last(fetched@, i, k));
    }
    assert forall|k: int|
        0 <= k < fetched@.len() && (#[trigger] fetched@[k]).0 == i && fetched@[k].1
            is Some implies (news@[i] == false <==> old(state).games@.contains_key(i)
        && old(state).games@[i] == fetched@[k].1->0) by {
        assert(brings(fetched@, i));
        assert(brings_last(fetched@, i, k));
    }
}

/// After a batch, a game is known as the last entry gives it that brought it. A game that could not
/// be fetched is known as before.
pub proof fn fetched_games_are_known(
    state: &mut State,
    fetched: &Vec<(GameIndex, Option<GameSnapshot>)>,
    news: BTreeMap<GameIndex, bool>,
    i: GameIndex,
    k: int,
)
    requires
        call_ensures(store_fetched_games, (state, fetched), news),
    ensures
        brings_last(fetched@, i, k) ==> {
            &&& final(state).games@.contains_key(i)
            &&& final(state).games@[i] == fetched@[k].1->0
            &&& news@.contains_key(i)
        },
        (forall|j: int|
            0 <= j < fetched@.len() && (#[trigger] fetched@[j]).0 == i ==> fetched@[j].1 is None)
            ==> {
            &&& final(state).games@.contains_key(i) <==> old(state).games@.contains_key(i)
            &&& old(state).games@.contains_key(i) ==> final(state).games@[i]
                == old(state).games@[i]
            &&& !news@.contains_key(i)
        },
        final(state).anchor_root == old(state).anchor_root,
        final(state).game_count == old(state).game_count,
        final(state).retirement_timestamp == old(state).retirement_timestamp,
        final(state).correct_output_roots@ == old(state).correct_output_roots@,
{
    let n = fetched@.len();
    assert(fetched@.take(n as int) =~= fetched@);
    games_after_batch(old(state).games@, fetched@, n, i);
}

/// Fetching goes on at once if a batch has changed what is known of a game, and only then.
pub proof fn change_is_progress(
    state: &mut State,
    fetched: &Vec<(GameIndex, Option<GameSnapshot>)>,
    news: BTreeMap<GameIndex, bool>,
    result: &SyncResult,
    answer: bool,
)
    requires
        call_ensures(store_fetched_games, (state, fetched), news),
        is_distinct(fetched@),
        result.fetched_games@ == news@,
        call_ensures(sync_answer, (result,), answer),
    ensures
        answer <==> final(state).games@ != old(state).games@,
{
    let (before, after) = (old(state).games@, final(state).games@);
    let n = fetched@.len();
    assert(fetched@.take(n as int) =~= fetched@);
    if answer {
        let i = choose|i: GameIndex| #[trigger] news@.contains_key(i) && news@[i];
        games_after_batch(before, fetched@, n, i);
        assert(brings(fetched@, i));
        let k = choose|k: int|
            0 <= k < fetched@.len() && (#[trigger] fetched@[k]).0 == i && fetched@[k].1 is Some;
        assert(brings_last(fetched@, i, k));
        assert(!(before.contains_key(i) && before[i] == after[i]));
        assert(after.contains_key(i));
    } else {
        assert forall|i: GameIndex| #[trigger] after.contains_key(i) == before.contains_key(i) && (
        after.contains_key(i) ==> after[i] == before[i]) by {
            games_after_batch(before, fetched@, n, i);
            if brings(fetched@, i) {
                let k = choose|k: int|
                    0 <= k < fetched@.len() && (#[trigger] fetched@[k]).0 == i && fetched@[k].1
                        is Some;
                assert(brings_last(fetched@, i, k));
                assert(news@.contains_key(i) && !news@[i]);
            }
        }
        assert(after =~= before);
    }
}

/// The game lies within the bounds that are given.
pub open spec fn is_within(bounds: GameRangeInclusive, g: GameIndex) -> bool {
    &&& bounds.first() matches Some(first) ==> first <= g
    &&& bounds.last() matches Some(last) ==> g <= last
}

/// In which order games are fetched: those after the fetched ones come first, then those before
/// them, then the fetched ones themselves.
pub open spec fn turn(start: GameIndex, end: GameIndex, g: GameIndex) -> int {
    if end <= g {
        0
    } else if g < start {
        1
    } else {
        2
    }
}

/// A game that can be fetched next to the games of `start..end`: one of the `batch_size` games after
/// them that exist, one of the `batch_size` games before them, or one that was picked.
pub open spec fn is_next(
    game_count: u32,
    start: GameIndex,
    end: GameIndex,
    batch_size: usize,
    picks: Seq<GameIndex>,
    g: GameIndex,
) -> bool {
    ||| end <= g < game_count && g - end < batch_size
    ||| g < start && start - g <= batch_size
    ||| picks.contains(g)
}

/// What a filter drops does not pass the test.
proof fn filter_drops_nothing_else(
    games: Seq<GameIndex>,
    test: spec_fn(GameIndex) -> bool,
    i: int,
)
    requires
        0 <= i < games.len(),
        test(games[i]),
    ensures
        games.filter(test).contains(games[i]),
    decreases games.len(),
{
    reveal(Seq::filter);
    let kept = games.drop_last().filter(test);
    if i < games.len() - 1 {
        filter_drops_nothing_else(games.drop_last(), test, i);
        let k = choose|k: int| 0 <= k < kept.len() && kept[k] == games[i];
        assert(games.filter(test)[k] == games[i]);
    } else {
        assert(games.filter(test).last() == games[i]);
    }
}

/// What a filter keeps stays in order.
proof fn filter_keeps_order(
    games: Seq<GameIndex>,
    test: spec_fn(GameIndex) -> bool,
    precedes: spec_fn(GameIndex, GameIndex) -> bool,
)
    requires
        forall|i: int, j: int|
            0 <= i < j < games.len() ==> precedes(#[trigger] games[i], #[trigger] games[j]),
    ensures
        forall|i: int, j: int|
            0 <= i < j < games.filter(test).len() ==> precedes(
                #[trigger] games.filter(test)[i],
                #[trigger] games.filter(test)[j],
            ),
        forall|i: int|
            0 <= i < games.filter(test).len() ==> test(#[trigger] games.filter(test)[i])
                && games.contains(games.filter(test)[i]),
    decreases games.len(),
{
    reveal(Seq::filter);
    if games.len() > 0 {
        let before = games.drop_last();
        let kept = before.filter(test);
        assert forall|i: int, j: int| 0 <= i < j < before.len() implies precedes(
            #[trigger] before[i],
            #[trigger] before[j],
        ) by {
            assert(before[i] == games[i] && before[j] == games[j]);
        }
        filter_keeps_order(before, test, precedes);
        assert forall|i: int| 0 <= i < kept.len() implies precedes(
            #[trigger] kept[i],
            games.last(),
        ) && games.contains(kept[i]) by {
            assert(before.contains(kept[i]));
            let k = choose|k: int| 0 <= k < before.len() && before[k] == kept[i];
            assert(games[k] == kept[i]);
            assert(games[games.len() - 1] == games.last());
        }
        assert(games.contains(games.last())) by {
            assert(games[games.len() - 1] == games.last());
        }
    }
}

/// One game comes before another in a batch.
pub open spec fn comes_first(start: GameIndex, end: GameIndex, a: GameIndex, b: GameIndex) -> bool {
    &&& turn(start, end, a) <= turn(start, end, b)
    &&& turn(start, end, a) == 0 && turn(start, end, b) == 0 ==> a < b
    &&& turn(start, end, a) == 1 && turn(start, end, b) == 1 ==> b < a
    &&& a != b
}

proof fn batch_order(
    game_count: u32,
    start: GameIndex,
    end: GameIndex,
    bounds: GameRangeInclusive,
    batch_size: usize,
    picks: Seq<GameIndex>,
    batch: Seq<GameIndex>,
    g: GameIndex,
)
    requires
        batch == game_fetcher::batch_of(
            game_fetcher::fetch_candidates(game_count, start..end, batch_size, picks),
            bounds,
            batch_size,
        ),
        start <= end,
        forall|i: int| 0 <= i < picks.len() ==> start <= #[trigger] picks[i] < end,
        picks.no_duplicates(),
    ensures
        batch.len() <= batch_size,
        batch.contains(g) ==> is_within(bounds, g) && is_next(
            game_count,
            start,
            end,
            batch_size,
            picks,
            g,
        ),
        batch.len() < batch_size && is_within(bounds, g) && is_next(
            game_count,
            start,
            end,
            batch_size,
            picks,
            g,
        ) ==> batch.contains(g),
        forall|i: int, j: int|
            0 <= i < j < batch.len() ==> comes_first(
                start,
                end,
                #[trigger] batch[i],
                #[trigger] batch[j],
            ),
        !batch.contains(g) && is_within(bounds, g) && is_next(
            game_count,
            start,
            end,
            batch_size,
            picks,
            g,
        ) ==> forall|i: int|
            0 <= i < batch.len() ==> turn(start, end, #[trigger] batch[i]) <= turn(start, end, g),
{
    let up = game_fetcher::upward(end, game_count, batch_size);
    let down = game_fetcher::downward(start, batch_size);
    let candidates = game_fetcher::fetch_candidates(game_count, start..end, batch_size, picks);
    let test = |g: GameIndex| bounds.has(g);
    let kept = candidates.filter(test);
    let precedes = |a: GameIndex, b: GameIndex| comes_first(start, end, a, b);
    let (u, d) = (up.len() as int, (up.len() + down.len()) as int);
    assert forall|i: int, j: int| 0 <= i < j < candidates.len() implies precedes(
        #[trigger] candidates[i],
        #[trigger] candidates[j],
    ) by {
        if j >= d {
            assert(candidates[j] == picks[j - d]);
        }
        if i >= d {
            assert(candidates[i] == picks[i - d]);
        }
    }
    filter_keeps_order(candidates, test, precedes);
    assert(candidates.contains(g) <==> is_next(game_count, start, end, batch_size, picks, g)) by {
        if candidates.contains(g) {
            let k = choose|k: int| 0 <= k < candidates.len() && candidates[k] == g;
            if k >= d {
                assert(picks[k - d] == g);
            }
        }
        if end <= g < game_count && g - end < batch_size {
            assert(candidates[g - end] == g);
        } else if g < start && start - g <= batch_size {
            assert(candidates[u + start - 1 - g] == g);
        } else if picks.contains(g) {
            let k = choose|k: int| 0 <= k < picks.len() && picks[k] == g;
            assert(candidates[d + k] == g);
        }
    }
    if candidates.contains(g) && bounds.has(g) {
        let k = choose|k: int| 0 <= k < candidates.len() && candidates[k] == g;
        filter_drops_nothing_else(candidates, test, k);
        let p = choose|p: int| 0 <= p < kept.len() && kept[p] == g;
        if p < batch.len() {
            assert(batch[p] == g);
        }
        assert forall|i: int| 0 <= i < batch.len() && !batch.contains(g) implies turn(
            start,
            end,
            #[trigger] batch[i],
        ) <= turn(start, end, g) by {
            assert(batch[i] == kept[i]);
            assert(precedes(kept[i], kept[p]));
        }
    }
    if batch.contains(g) {
        let p = choose|p: int| 0 <= p < batch.len() && batch[p] == g;
        assert(kept[p] == g);
    }
    assert forall|i: int, j: int| 0 <= i < j < batch.len() implies comes_first(
        start,
        end,
        #[trigger] batch[i],
        #[trigger] batch[j],
    ) by {
        assert(batch[i] == kept[i] && batch[j] == kept[j]);
        assert(precedes(kept[i], kept[j]));
    }
}

/// A batch holds games within bounds that can be fetched next, no more than asked for, and all of
/// them if there is room. The games after the fetched ones come first, the oldest of them in front;
/// then the games before the fetched ones, the newest of them in front; then the picked ones.
pub proof fn batch_is_filled_in_order(
    game_count: u32,
    start: GameIndex,
    end: GameIndex,
    bounds: &GameRangeInclusive,
    batch_size: usize,
    picks: &Vec<GameIndex>,
    batch: Vec<GameIndex>,
    g: GameIndex,
)
    requires
        call_ensures(plan_fetch, (game_count, start, end, bounds, batch_size, picks), batch),
        start <= end,
        forall|i: int| 0 <= i < picks@.len() ==> start <= #[trigger] picks@[i] < end,
        picks@.no_duplicates(),
    ensures
        batch@.len() <= batch_size,
        batch@.contains(g) ==> is_within(*bounds, g) && is_next(
            game_count,
            start,
            end,
            batch_size,
            picks@,
            g,
        ),
        batch@.len() < batch_size && is_within(*bounds, g) && is_next(
            game_count,
            start,
            end,
            batch_size,
            picks@,
            g,
        ) ==> batch@.contains(g),
        forall|i: int, j: int|
            0 <= i < j < batch@.len() ==> comes_first(
                start,
                end,
                #[trigger] batch@[i],
                #[trigger] batch@[j],
            ),
        !batch@.contains(g) && is_within(*bounds, g) && is_next(
            game_count,
            start,
            end,
            batch_size,
            picks@,
            g,
        ) ==> forall|i: int|
            0 <= i < batch@.len() ==> turn(start, end, #[trigger] batch@[i]) <= turn(start, end, g),
{
    batch_order(game_count, start, end, *bounds, batch_size, picks@, batch@, g);
}

/// What is fetched next to the games of a range that is not empty: games within bounds, none twice,
/// no more than asked for. The `batch_size` games after the range that exist come first, in order,
/// then the `batch_size` games before it, in reverse order, then games of the range again. A game of
/// an earlier turn is left out only if there is no room for it.
pub proof fn fetching_grows_the_range(
    game_count: u32,
    range: Range<GameIndex>,
    bounds: GameRangeInclusive,
    batch_size: usize,
    batch: Vec<GameIndex>,
    g: GameIndex,
)
    requires
        call_ensures(next_games_to_fetch, (game_count, range, bounds, batch_size), batch),
        range.start < range.end,
    ensures
        batch@.len() <= batch_size,
        batch@.contains(g) ==> is_within(bounds, g) && {
            ||| range.end <= g < game_count && g - range.end < batch_size
            ||| g < range.start && range.start - g <= batch_size
            ||| range.start <= g < range.end
        },
        forall|i: int, j: int|
            0 <= i < j < batch@.len() ==> comes_first(
                range.start,
                range.end,
                #[trigger] batch@[i],
                #[trigger] batch@[j],
            ),
        is_within(bounds, g) && {
            ||| range.end <= g < game_count && g - range.end < batch_size
            ||| g < range.start && range.start - g <= batch_size
            ||| range.start <= g < range.end && range.end - range.start <= batch_size
        } ==> batch@.contains(g) || batch@.len() == batch_size && forall|i: int|
            0 <= i < batch@.len() ==> turn(range.start, range.end, #[trigger] batch@[i]) <= turn(
                range.start,
                range.end,
                g,
            ),
        batch_size > 0 && range.end < game_count && is_within(bounds, range.end)
            ==> batch@.len() > 0 && batch@[0] == range.end,
{
    assert(game_fetcher::frontier(game_count, range, bounds) == range);
    let picks = choose|picks: Seq<GameIndex>| #[trigger]
        primitives::is_pick(range, batch_size, picks) && batch@ == game_fetcher::batch_of(
            game_fetcher::fetch_candidates(game_count, range, batch_size, picks),
            bounds,
            batch_size,
        );
    assert forall|i: int| 0 <= i < picks.len() implies range.start <= #[trigger] picks[i]
        < range.end by {}
    assert(picks.no_duplicates());
    assert(batch@ == game_fetcher::batch_of(
        game_fetcher::fetch_candidates(game_count, range.start..range.end, batch_size, picks),
        bounds,
        batch_size,
    ));
    batch_order(game_count, range.start, range.end, bounds, batch_size, picks, batch@, g);
    if range.start <= g < range.end && range.end - range.start <= batch_size {
        assert(picks[g - range.start] == g);
    }
    if picks.contains(g) {
        let k = choose|k: int| 0 <= k < picks.len() && picks[k] == g;
        assert(range.start <= picks[k] < range.end);
    }
    let e = range.end;
    if batch_size > 0 && e < game_count && is_within(bounds, e) {
        let candidates = game_fetcher::fetch_candidates(game_count, range, batch_size, picks);
        assert(candidates[0] == e);
        game_fetcher::filter_keeps_first(candidates, |g: GameIndex| bounds.has(g));
    }
}

/// As long as nothing was fetched, the newest game within bounds comes first.
pub proof fn fetching_starts_with_newest_game(
    game_count: u32,
    range: Range<GameIndex>,
    bounds: GameRangeInclusive,
    batch_size: usize,
    batch: Vec<GameIndex>,
    newest: GameIndex,
)
    requires
        call_ensures(next_games_to_fetch, (game_count, range, bounds, batch_size), batch),
        range.start >= range.end,
        batch_size > 0,
        newest < game_count,
        is_within(bounds, newest),
        forall|g: GameIndex| newest < g < game_count ==> !#[trigger] is_within(bounds, g),
    ensures
        batch@.len() > 0,
        batch@[0] == newest,
        batch@.len() <= batch_size,
        forall|i: int|
            0 <= i < batch@.len() ==> #[trigger] batch@[i] <= newest && is_within(
                bounds,
                batch@[i],
            ),
{
    let c = bounds.clamped(game_count);
    let picks = choose|picks: Seq<GameIndex>| #[trigger]
        primitives::is_pick(c..c, batch_size, picks) && batch@ == game_fetcher::batch_of(
            game_fetcher::fetch_candidates(game_count, c..c, batch_size, picks),
            bounds,
            batch_size,
        );
    assert(picks =~= Seq::empty());
    assert(c == newest || c == newest + 1) by {
        if newest + 1 < game_count {
            assert(!is_within(bounds, (newest + 1) as GameIndex));
        }
    }
    batch_order(game_count, c, c, bounds, batch_size, picks, batch@, newest);
    assert forall|i: int| 0 <= i < batch@.len() implies #[trigger] batch@[i] <= newest && is_within(
        bounds,
        batch@[i],
    ) by {
        assert(batch@.contains(batch@[i]));
        batch_order(game_count, c, c, bounds, batch_size, picks, batch@, batch@[i]);
    }
    let candidates = game_fetcher::fetch_candidates(game_count, c..c, batch_size, picks);
    let up = game_fetcher::upward(c, game_count, batch_size);
    let down = game_fetcher::downward(c, batch_size);
    assert(candidates == up + down + picks);
    if c == newest {
        assert(up.len() > 0 && up[0] == c);
    } else {
        assert(c >= game_count) by {
            if c < game_count {
                assert(is_within(bounds, c));
            }
        }
        assert(up.len() == 0);
        assert(down.len() > 0 && down[0] == c - 1);
    }
    assert(candidates[0] == newest);
    game_fetcher::filter_keeps_first(candidates, |g: GameIndex| bounds.has(g));
}

} // verus!
