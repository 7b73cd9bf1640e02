//! Which games to create, and on top of which game.

use std::collections::BTreeMap;
use std::ops::Range;

use vstd::prelude::*;

use crate::common::contract;
use crate::common::contract::encode_extra_data;
use crate::common::fixed_bytes::Address;
use crate::common::fixed_bytes::B256;
use crate::common::primitives::GameIndex;
use crate::common::state::State;
use crate::rpc::cl;
use crate::rpc::cl::SafeDBClient;
use crate::rpc::cl::SafeHeadLookup;
use crate::rpc::cl::SafeHeadResponse;
use crate::rpc::cl::SafeHeadSearch;
use crate::rpc::l1_range_cache;
use crate::rpc::safe_head_laws;

verus! {

/// How games are created.
#[derive(Clone, Copy, Debug, PartialEq, Eq)]
pub struct GameCreatorConfig {
    pub game_type: u32,
    /// How many games are created in one round.
    pub create_batch_size: usize,
    /// How many safe heads are asked for at once.
    pub safedb_query_batch_size: usize,
}

/// A game that bounds the search for the canonical head: it is retired, or it is the anchor game.
pub open spec fn is_marker(state: &State, i: GameIndex) -> bool {
    &&& state.games@.contains_key(i)
    &&& state.games@[i].retired(state.retirement_timestamp) || state.games@[i].game_address
        == state.anchor_root.anchor_game
}

/// The latest such game that was fetched.
pub open spec fn is_last_marker(state: &State, i: GameIndex) -> bool {
    &&& state.fetched_range.start <= i < state.fetched_range.end
    &&& is_marker(state, i)
    &&& forall|j: GameIndex| i < j < state.fetched_range.end ==> !#[trigger] is_marker(state, j)
}

/// Where the canonical head can be: after the latest retired game, or from the anchor game on, or
/// anywhere if all games were fetched. `None` if the anchor root or more games have to be fetched to
/// tell.
pub open spec fn possible_heads(state: &State) -> Option<Range<GameIndex>> {
    if state.fetched_range.end != state.game_count {
        None
    } else if state.anchor_root.is_unset() {
        None
    } else if exists|i: GameIndex| is_last_marker(state, i) {
        let i = choose|i: GameIndex| is_last_marker(state, i);
        if state.games@[i].retired(state.retirement_timestamp) {
            Some((i + 1) as GameIndex..state.game_count)
        } else {
            Some(i..state.game_count)
        }
    } else if state.fetched_range.start == 0 {
        Some(0u32..state.game_count)
    } else {
        None
    }
}

/// The first good game of a range that is the anchor game.
pub open spec fn is_anchor(state: &State, range: Range<GameIndex>, i: GameIndex) -> bool {
    &&& is_anchor_game(state, range, i)
    &&& forall|j: GameIndex| j < i ==> !#[trigger] is_anchor_game(state, range, j)
}

pub open spec fn is_anchor_game(state: &State, range: Range<GameIndex>, i: GameIndex) -> bool {
    &&& range.start <= i < range.end
    &&& state.games@.contains_key(i)
    &&& state.games@[i].game_address == state.anchor_root.anchor_game
    &&& state.games@[i].good(state.retirement_timestamp)
}

/// A game that new games may descend from: the anchor game if it is in the range, otherwise a game
/// without a parent that starts at the anchor's block.
pub open spec fn is_starting_point(state: &State, range: Range<GameIndex>, i: GameIndex) -> bool {
    if exists|a: GameIndex| is_anchor(state, range, a) {
        is_anchor(state, range, i)
    } else {
        state.games@[i].parent_index == GameIndex::MAX && state.games@[i].start_block
            == state.anchor_root.claim_block
    }
}

/// A good game of the range that is a starting point, or whose parent is an earlier such game.
pub open spec fn is_candidate(state: &State, range: Range<GameIndex>, i: GameIndex) -> bool
    decreases i,
{
    &&& range.start <= i < range.end
    &&& state.games@.contains_key(i)
    &&& state.games@[i].good(state.retirement_timestamp)
    &&& is_starting_point(state, range, i) || (state.games@[i].parent_index < i && is_candidate(
        state,
        range,
        state.games@[i].parent_index,
    ))
}

/// The candidate with the highest claimed block, the latest one if there are several; the anchor
/// root itself if there is no candidate.
pub open spec fn is_canonical_head(
    state: &State,
    range: Range<GameIndex>,
    head: (GameIndex, u64),
) -> bool {
    if exists|i: GameIndex| is_candidate(state, range, i) {
        &&& is_candidate(state, range, head.0)
        &&& head.1 == state.games@[head.0].claim_block
        &&& forall|j: GameIndex| #[trigger]
            is_candidate(state, range, j) ==> state.games@[j].claim_block < head.1 || (
            state.games@[j].claim_block == head.1 && j <= head.0)
    } else {
        head == (GameIndex::MAX, state.anchor_root.claim_block)
    }
}

/// Determines where the canonical head can be; `None` if the anchor root or more games have to be
/// fetched.
pub fn range_of_possible_canonical_head(state: &State) -> (r: Option<Range<GameIndex>>)
    requires
        state.fetched_range.start <= state.fetched_range.end,
    ensures
        r == possible_heads(state),
        r is Some ==> r->0.end == state.game_count && r->0.start <= r->0.end,
{
    if state.fetched_range.end != state.game_count {
        return None;
    }
    if state.anchor_root.is_empty() {
        return None;
    }
    let mut i: GameIndex = state.fetched_range.end;
    while i > state.fetched_range.start
        invariant
            state.fetched_range.start <= i <= state.fetched_range.end,
            state.fetched_range.end == state.game_count,
            !state.anchor_root.is_unset(),
            forall|j: GameIndex| i <= j < state.fetched_range.end ==> !#[trigger] is_marker(state, j),
        decreases i,
    {
        i = i - 1;
        if let Some(game) = state.games.get(&i) {
            let retired: bool = game.is_retired(state.retirement_timestamp);
            if retired || game.game_address == state.anchor_root.anchor_game {
                proof {
                    assert(is_last_marker(state, i));
                    let c = choose|c: GameIndex| is_last_marker(state, c);
                    assert(is_marker(state, c) && is_marker(state, i));
                    assert(c == i);
                }
                return Some(
                    if retired {
                        i + 1..state.game_count
                    } else {
                        i..state.game_count
                    },
                );
            }
        }
    }
    if state.fetched_range.start == 0 {
        return Some(0..state.game_count);
    }
    None
}

/// Finds the anchor game in a range of games.
fn find_anchor(state: &State, range: &Range<GameIndex>) -> (r: Option<GameIndex>)
    ensures
        match r {
            Some(i) => is_anchor(state, *range, i),
            None => forall|j: GameIndex| !#[trigger] is_anchor_game(state, *range, j),
        },
{
    let mut i: GameIndex = range.start;
    while i < range.end
        invariant
            range.start <= i,
            forall|j: GameIndex| j < i ==> !#[trigger] is_anchor_game(state, *range, j),
        decreases range.end - i,
    {
        if let Some(game) = state.games.get(&i) {
            if game.game_address == state.anchor_root.anchor_game && game.still_good(
                state.retirement_timestamp,
            ) {
                assert(is_anchor_game(state, *range, i));
                return Some(i);
            }
        }
        i = i + 1;
    }
    None
}

/// Finds the canonical head, which is the starting point for new games: its index and the block
/// that it claims. `None` if the anchor root or more games have to be fetched.
pub fn get_canonical_head(state: &State) -> (r: Option<(GameIndex, u64)>)
    requires
        state.fetched_range.start <= state.fetched_range.end,
    ensures
        r is Some <==> possible_heads(state) is Some,
        r is Some ==> is_canonical_head(state, possible_heads(state)->0, r->0),
{
    let range = match range_of_possible_canonical_head(state) {
        Some(range) => range,
        None => {
            return None;
        },
    };
    let anchor_game_index = find_anchor(state, &range);
    let mut visited: BTreeMap<GameIndex, u64> = BTreeMap::new();
    let mut head: Option<(GameIndex, u64)> = None;
    let mut i: GameIndex = range.start;
    while i < range.end
        invariant
            range.start <= i,
            match anchor_game_index {
                Some(a) => is_anchor(state, range, a),
                None => forall|j: GameIndex| !#[trigger] is_anchor_game(state, range, j),
            },
            forall|j: GameIndex| #[trigger]
                visited@.contains_key(j) <==> j < i && is_candidate(state, range, j),
            match head {
                Some((g, block)) => {
                    &&& g < i
                    &&& is_candidate(state, range, g)
                    &&& block == state.games@[g].claim_block
                    &&& forall|j: GameIndex| #[trigger]
                        is_candidate(state, range, j) && j < i ==> state.games@[j].claim_block
                            < block || (state.games@[j].claim_block == block && j <= g)
                },
                None => forall|j: GameIndex| j < i ==> !#[trigger] is_candidate(state, range, j),
            },
        decreases range.end - i,
    {
        if let Some(game) = state.games.get(&i) {
            if game.still_good(state.retirement_timestamp) {
                let is_start: bool = match anchor_game_index {
                    Some(a) => i == a,
                    None => game.parent_index == GameIndex::MAX && game.start_block
                        == state.anchor_root.claim_block,
                };
                proof {
                    if let Some(a) = anchor_game_index {
                        assert(is_anchor_game(state, range, a));
                        if is_anchor(state, range, i) {
                            assert(is_anchor_game(state, range, i));
                            assert(i == a);
                        }
                    }
                    assert(is_start == is_starting_point(state, range, i));
                }
                let is_parent_visited: bool = !is_start && game.parent_index != GameIndex::MAX
                    && visited.contains_key(&game.parent_index);
                assert((is_start || is_parent_visited) == is_candidate(state, range, i));
                if is_start || is_parent_visited {
                    visited.insert(i, game.claim_block);
                    let higher: bool = match head {
                        Some((_, block)) => block <= game.claim_block,
                        None => true,
                    };
                    if higher {
                        head = Some((i, game.claim_block));
                    }
                }
            }
        }
        i = i + 1;
    }
    match head {
        Some(head) => Some(head),
        None => Some((GameIndex::MAX, state.anchor_root.claim_block)),
    }
}

/// A line of good games in a range, from a starting point on, each the parent of the next.
pub open spec fn is_lineage(
    state: &State,
    range: Range<GameIndex>,
    line: Seq<GameIndex>,
) -> bool {
    &&& line.len() > 0
    &&& is_starting_point(state, range, line[0])
    &&& forall|k: int|
        0 <= k < line.len() ==> {
            &&& range.start <= #[trigger] line[k] < range.end
            &&& state.games@.contains_key(line[k])
            &&& state.games@[line[k]].good(state.retirement_timestamp)
        }
    &&& forall|k: int|
        1 <= k < line.len() ==> state.games@[#[trigger] line[k]].parent_index == line[k - 1]
}

/// Every candidate descends from a starting point through good games only. So does the canonical
/// head, unless it is the anchor root itself.
pub proof fn candidate_has_good_lineage(
    state: &State,
    range: Range<GameIndex>,
    i: GameIndex,
) -> (line: Seq<GameIndex>)
    requires
        is_candidate(state, range, i),
    ensures
        is_lineage(state, range, line),
        line.last() == i,
    decreases i,
{
    if is_starting_point(state, range, i) {
        seq![i]
    } else {
        let parent = state.games@[i].parent_index;
        let line = candidate_has_good_lineage(state, range, parent);
        line.push(i)
    }
}

/// As long as the anchor root has not been fetched, there is no canonical head.
pub proof fn head_waits_for_anchor_root(state: &State)
    requires
        state.anchor_root.is_unset(),
    ensures
        possible_heads(state) is None,
{
}

/// There is one canonical head.
pub proof fn canonical_head_is_unique(
    state: &State,
    range: Range<GameIndex>,
    a: (GameIndex, u64),
    b: (GameIndex, u64),
)
    requires
        is_canonical_head(state, range, a),
        is_canonical_head(state, range, b),
    ensures
        a == b,
{
}

/// If the anchor game is good and lies in the range, all candidates descend from it: it is the only
/// starting point.
pub proof fn anchor_is_only_starting_point(
    state: &State,
    range: Range<GameIndex>,
    anchor: GameIndex,
    i: GameIndex,
)
    requires
        is_anchor(state, range, anchor),
    ensures
        is_starting_point(state, range, i) <==> i == anchor,
{
    if is_anchor(state, range, i) {
        assert(is_anchor_game(state, range, i) && is_anchor_game(state, range, anchor));
    }
}

/// The blocks that new games will claim, as far as they are decided.
#[derive(Debug)]
pub struct CreationPlan {
    l2_finalized: u64,
    max_games_to_create: usize,
    current: u64,
    games: Vec<u64>,
}

impl CreationPlan {
    /// The blocks decided so far.
    pub closed spec fn blocks(&self) -> Seq<u64> {
        self.games@
    }

    /// The next block that has to be claimed, at least.
    pub closed spec fn target(&self) -> u64 {
        self.current
    }

    pub closed spec fn last_block(&self) -> u64 {
        self.l2_finalized
    }

    pub closed spec fn max_games(&self) -> usize {
        self.max_games_to_create
    }

    /// Each block lies after the ones before, and before the target.
    pub open spec fn is_increasing(&self) -> bool {
        &&& forall|i: int, j: int|
            0 <= i < j < self.blocks().len() ==> #[trigger] self.blocks()[i]
                < #[trigger] self.blocks()[j]
        &&& forall|i: int|
            0 <= i < self.blocks().len() ==> #[trigger] self.blocks()[i] < self.target()
    }

    /// Starts after the block that the canonical head claims.
    pub fn new(
        canonical_claim_block: u64,
        l2_finalized: u64,
        max_games_to_create: usize,
    ) -> (r: Self)
        requires
            canonical_claim_block < u64::MAX,
        ensures
            r.blocks() == Seq::<u64>::empty(),
            r.target() == canonical_claim_block + 1,
            r.last_block() == l2_finalized,
            r.max_games() == max_games_to_create,
            r.is_increasing(),
    {
        CreationPlan {
            l2_finalized,
            max_games_to_create,
            current: canonical_claim_block + 1,
            games: Vec::new(),
        }
    }

    /// The block to look up next; `None` once the plan is complete, because the target is not
    /// finalized or there are enough games.
    pub fn next_target(&self) -> (r: Option<u64>)
        ensures
            r == (if self.target() <= self.last_block() && self.blocks().len()
                < self.max_games() {
                Some(self.target())
            } else {
                None
            }),
    {
        if self.current <= self.l2_finalized && self.games.len() < self.max_games_to_create {
            Some(self.current)
        } else {
            None
        }
    }

    /// Claims the block `l2_safe`: the safe head at the L1 block that makes the target safe.
    pub fn claim(&mut self, l2_safe: u64)
        requires
            l2_safe < u64::MAX,
        ensures
            final(self).blocks() == old(self).blocks().push(l2_safe),
            final(self).target() == l2_safe + 1,
            final(self).last_block() == old(self).last_block(),
            final(self).max_games() == old(self).max_games(),
            old(self).is_increasing() && old(self).target() <= l2_safe
                ==> final(self).is_increasing(),
    {
        self.games.push(l2_safe);
        self.current = l2_safe + 1;
        proof {
            if old(self).is_increasing() && old(self).target() <= l2_safe {
                let (before, after) = (old(self).blocks(), self.blocks());
                assert forall|i: int| 0 <= i < before.len() implies before[i] == #[trigger] after[i]
                    && after[i] < l2_safe by {
                    assert(before[i] < old(self).target());
                }
            }
        }
    }

    /// The blocks of a complete plan.
    pub fn into_blocks(self) -> (r: Vec<u64>)
        ensures
            r@ == self.blocks(),
    {
        self.games
    }
}

/// How far the search for the block that a game claims has come.
#[derive(Clone, Copy, Debug, PartialEq, Eq, Structural)]
pub enum ClaimSearch {
    /// The L1 block that makes the target safe lies in `start..=end`.
    Within { start: u64, end: u64 },
    /// It is `l1_safe`; the safe head there has been asked for.
    SafeAt { l1_safe: u64 },
}

/// The next thing to do in such a search.
#[derive(Debug, PartialEq, Eq)]
pub enum ClaimStep {
    /// The safe heads at `l1_block_numbers` are to be asked for and cached, then the search goes on
    /// from `next`.
    Query { next: ClaimSearch, l1_block_numbers: Vec<u64> },
    /// The game claims this block.
    Claim { l2_safe: u64 },
}

/// What follows once the L1 block `l1_safe` is found that makes the target safe: the safe head there
/// is claimed if it is cached, and asked for otherwise.
pub open spec fn claims_safe_head(
    client: SafeDBClient,
    target: u64,
    l1_safe: u64,
    step: ClaimStep,
) -> bool {
    match step {
        ClaimStep::Claim { l2_safe } => {
            &&& l1_range_cache::is_first_from(client.ranges(), target, l2_safe)
            &&& client.ranges()[l2_safe].0 <= l1_safe <= client.ranges()[l2_safe].1
        },
        ClaimStep::Query { next, l1_block_numbers } => {
            &&& next == (ClaimSearch::SafeAt { l1_safe })
            &&& l1_block_numbers@ == seq![l1_safe]
            &&& forall|k: u64| #[trigger]
                l1_range_cache::is_first_from(client.ranges(), target, k) ==> !(
                client.ranges()[k].0 <= l1_safe <= client.ranges()[k].1)
        },
    }
}

/// One step of the search for the block that the next game claims: the safe head at the first L1
/// block that makes the target safe.
///
/// `replies` are the answers to the questions of the step before, already cached; only the last step
/// looks at them.
pub fn search_claim(
    client: &SafeDBClient,
    target: u64,
    search: ClaimSearch,
    replies: &Vec<SafeHeadResponse>,
) -> (r: ClaimStep)
    requires
        search matches ClaimSearch::Within { start, end } ==> start <= end
            || client.ranges().contains_key(target),
        search is SafeAt ==> replies@.len() > 0,
    ensures
        match search {
            ClaimSearch::Within { start, end } => {
                let new_start = cl::narrowed_start(client.ranges(), target, start, end);
                let new_end = cl::narrowed_end(client.ranges(), target, new_start as u64, end);
                if client.ranges().contains_key(target) {
                    claims_safe_head(
                        *client,
                        target,
                        cl::cached_answer(client.ranges(), target, end),
                        r,
                    )
                } else if new_start == new_end {
                    claims_safe_head(*client, target, new_end as u64, r)
                } else {
                    r matches ClaimStep::Query { next, l1_block_numbers } && next == (
                    ClaimSearch::Within { start: new_start as u64, end: new_end as u64 })
                        && l1_block_numbers@ == cl::query_points(
                        new_start as u64,
                        new_end as u64,
                        client.batch(),
                    )
                }
            },
            ClaimSearch::SafeAt { .. } => r == (ClaimStep::Claim {
                l2_safe: replies@[0].safe_head.number,
            }),
        },
        r matches ClaimStep::Query { next: ClaimSearch::Within { start, end }, .. } ==> start
            <= end,
{
    match search {
        ClaimSearch::Within { start, end } => {
            match client.l2_to_l1_safe_within_range(target, start, end) {
                SafeHeadSearch::Query { start, end, l1_block_numbers } => ClaimStep::Query {
                    next: ClaimSearch::Within { start, end },
                    l1_block_numbers,
                },
                SafeHeadSearch::Found(l1_safe) => {
                    let hint: Option<u64> = Some(target);
                    assert(hint->0 == target);
                    match client.l1_to_l2_safe(l1_safe, hint) {
                        SafeHeadLookup::Known(l2_safe) => ClaimStep::Claim { l2_safe },
                        SafeHeadLookup::Query(bn) => {
                            let mut l1_block_numbers: Vec<u64> = Vec::new();
                            l1_block_numbers.push(bn);
                            assert(l1_block_numbers@ =~= seq![l1_safe]);
                            ClaimStep::Query {
                                next: ClaimSearch::SafeAt { l1_safe },
                                l1_block_numbers,
                            }
                        },
                    }
                },
            }
        },
        ClaimSearch::SafeAt { .. } => ClaimStep::Claim { l2_safe: replies[0].safe_head.number },
    }
}

/// If the node answers truthfully and the target is safe at the end of the search interval, the
/// claimed block is the target or a later one, whether it was cached or asked for.
pub proof fn claim_covers_target(
    safe: spec_fn(u64) -> u64,
    client: SafeDBClient,
    target: u64,
    start: u64,
    end: u64,
    l1_safe: u64,
    step: ClaimStep,
    reply: SafeHeadResponse,
)
    requires
        safe_head_laws::monotone(safe),
        safe_head_laws::faithful(safe, client.ranges()),
        safe_head_laws::first_within(safe, target, start, end, l1_safe),
        target <= safe(end),
        claims_safe_head(client, target, l1_safe, step),
        safe_head_laws::truthful(safe, l1_safe, reply),
    ensures
        match step {
            ClaimStep::Claim { l2_safe } => l2_safe == safe(l1_safe),
            ClaimStep::Query { next, .. } => next == (ClaimSearch::SafeAt { l1_safe }),
        },
        reply.safe_head.number == safe(l1_safe),
        target <= safe(l1_safe),
{
    safe_head_laws::found_block_covers_target(safe, target, start, end, l1_safe);
    if let ClaimStep::Claim { l2_safe } = step {
        safe_head_laws::known_safe_head_is_true(safe, client.ranges(), l2_safe, l1_safe);
    }
}

/// Why a created game cannot be found.
#[derive(Clone, Copy, Debug, PartialEq, Eq)]
pub enum CreateGameError {
    /// The receipt holds no event of a game's creation.
    MissingEvent,
    /// None of the new games has the created game's address.
    MissingGame,
}

/// A game to create.
#[derive(Debug, PartialEq, Eq)]
pub struct GameRequest {
    pub claim_block: u64,
    pub output_root: B256,
    pub extra_data: Vec<u8>,
}

/// What to do with a game.
#[derive(Clone, Copy, Debug, PartialEq, Eq)]
pub enum CreateDecision {
    /// The game exists already; the next one has the same parent.
    Skip,
    /// The transaction that creates the game is to be sent.
    Send,
}

/// `k` is the first place of `proxies` with this address.
pub open spec fn is_first_proxy(proxies: Seq<Address>, address: Address, n: int, k: int) -> bool {
    &&& 0 <= k < n
    &&& proxies[k] == address
    &&& forall|j: int| 0 <= j < k ==> #[trigger] proxies[j] != address
}

/// The number of games of `start..end` whose address is known.
pub open spec fn listed(start: GameIndex, end: GameIndex, proxies: Seq<Address>) -> int {
    if end <= start {
        0
    } else if end - start < proxies.len() {
        end - start
    } else {
        proxies.len() as int
    }
}

/// The index of a game that was just created, given the number of games before and after. If it is
/// the only new one, it is known. Otherwise it is the first of the new games that has its address.
pub open spec fn created_index(
    start: GameIndex,
    end: GameIndex,
    proxies: Seq<Address>,
    address: Address,
) -> Option<GameIndex> {
    if end == start + 1 {
        Some(start)
    } else if exists|k: int|
        is_first_proxy(proxies, address, listed(start, end, proxies), k) {
        let k = choose|k: int| is_first_proxy(proxies, address, listed(start, end, proxies), k);
        Some((start + k) as GameIndex)
    } else {
        None
    }
}

/// Whether the addresses of the new games are needed to find the created one.
pub fn needs_lookup(start: GameIndex, end: GameIndex) -> (r: bool)
    ensures
        r == (end != start + 1),
{
    !(end > start && end - start == 1)
}

/// Finds the index of a game that was just created. `proxies` are the addresses of the games from
/// `start` to `end`.
pub fn find_created_game(
    start: GameIndex,
    end: GameIndex,
    proxies: &Vec<Address>,
    address: Address,
) -> (r: Result<GameIndex, CreateGameError>)
    ensures
        r == (match created_index(start, end, proxies@, address) {
            Some(i) => Ok::<GameIndex, CreateGameError>(i),
            None => Err(CreateGameError::MissingGame),
        }),
{
    if !needs_lookup(start, end) {
        return Ok(start);
    }
    let ghost n = listed(start, end, proxies@);
    let mut k: usize = 0;
    let mut i: GameIndex = start;
    while i < end && k < proxies.len()
        invariant
            i == start + k,
            k <= n,
            start < end ==> i <= end,
            n == listed(start, end, proxies@),
            forall|j: int| 0 <= j < k ==> #[trigger] proxies@[j] != address,
            end != start + 1,
        decreases proxies.len() - k,
    {
        if proxies[k] == address {
            proof {
                assert(is_first_proxy(proxies@, address, n, k as int));
                let c = choose|c: int| is_first_proxy(proxies@, address, n, c);
                assert(proxies@[c] == address);
                assert(c == k);
            }
            return Ok(i);
        }
        k = k + 1;
        i = i + 1;
    }
    Err(CreateGameError::MissingGame)
}

/// `k` is the first log whose first topic is `signature`.
pub open spec fn is_first_log(topics: Seq<Option<B256>>, signature: B256, k: int) -> bool {
    &&& 0 <= k < topics.len()
    &&& topics[k] == Some(signature)
    &&& forall|j: int| 0 <= j < k ==> #[trigger] topics[j] != Some(signature)
}

/// No log has `signature` as its first topic.
pub open spec fn has_no_log(topics: Seq<Option<B256>>, signature: B256) -> bool {
    forall|j: int| 0 <= j < topics.len() ==> #[trigger] topics[j] != Some(signature)
}

/// Finds the event of a game's creation among a receipt's logs. `topics` holds the first topic of
/// each log.
pub fn find_created_event(topics: &Vec<Option<B256>>, signature: B256) -> (r: Result<
    usize,
    CreateGameError,
>)
    ensures
        match r {
            Ok(k) => is_first_log(topics@, signature, k as int),
            Err(e) => e == CreateGameError::MissingEvent && has_no_log(topics@, signature),
        },
{
    for k in 0..topics.len()
        invariant
            forall|j: int| 0 <= j < k ==> #[trigger] topics@[j] != Some(signature),
    {
        if let Some(topic) = topics[k] {
            if topic == signature {
                return Ok(k);
            }
        }
    }
    Err(CreateGameError::MissingEvent)
}

/// Games that are created one on top of the other.
#[derive(Debug)]
pub struct GameCreation {
    claim_blocks: Vec<u64>,
    output_roots: Vec<B256>,
    next: usize,
    parent_game_index: GameIndex,
}

impl GameCreation {
    pub closed spec fn blocks(&self) -> Seq<u64> {
        self.claim_blocks@
    }

    pub closed spec fn roots(&self) -> Seq<B256> {
        self.output_roots@
    }

    /// The number of games that are dealt with.
    pub closed spec fn done(&self) -> nat {
        self.next as nat
    }

    /// The parent of the next game.
    pub closed spec fn parent(&self) -> GameIndex {
        self.parent_game_index
    }

    /// The number of games in all: each needs a block and an output root.
    pub open spec fn count(&self) -> nat {
        if self.blocks().len() < self.roots().len() {
            self.blocks().len()
        } else {
            self.roots().len()
        }
    }

    pub fn new(
        canonical_game_index: GameIndex,
        claim_blocks: Vec<u64>,
        output_roots: Vec<B256>,
    ) -> (r: Self)
        ensures
            r.blocks() == claim_blocks@,
            r.roots() == output_roots@,
            r.done() == 0,
            r.parent() == canonical_game_index,
    {
        GameCreation {
            claim_blocks,
            output_roots,
            next: 0,
            parent_game_index: canonical_game_index,
        }
    }

    /// The next game to create; `None` once all are dealt with.
    pub fn request(&self) -> (r: Option<GameRequest>)
        ensures
            r is Some <==> self.done() < self.count(),
            r matches Some(request) ==> {
                &&& request.claim_block == self.blocks()[self.done() as int]
                &&& request.output_root == self.roots()[self.done() as int]
                &&& request.extra_data@ == contract::extra_data(
                    request.claim_block,
                    self.parent(),
                )
            },
    {
        if self.next < self.claim_blocks.len() && self.next < self.output_roots.len() {
            let claim_block: u64 = self.claim_blocks[self.next];
            Some(
                GameRequest {
                    claim_block,
                    output_root: self.output_roots[self.next],
                    extra_data: encode_extra_data(claim_block, self.parent_game_index),
                },
            )
        } else {
            None
        }
    }

    /// Decides on the next game. `existing` is the address under which the factory knows a game
    /// with the same root and extra data, the zero address if there is none.
    pub fn decide(&mut self, existing: Address) -> (r: CreateDecision)
        requires
            old(self).done() < old(self).count(),
        ensures
            r == (if existing.is_zero() {
                CreateDecision::Send
            } else {
                CreateDecision::Skip
            }),
            final(self).blocks() == old(self).blocks(),
            final(self).roots() == old(self).roots(),
            final(self).parent() == old(self).parent(),
            final(self).done() == (if existing.is_zero() {
                old(self).done()
            } else {
                old(self).done() + 1
            }),
    {
        if existing.is_zero_address() {
            CreateDecision::Send
        } else {
            assert(self.next < self.claim_blocks.len());
            self.next = self.next + 1;
            CreateDecision::Skip
        }
    }

    /// Notes that the next game was created: it is the parent of the one after it. If it cannot be
    /// found among the new games, nothing changes.
    pub fn created(
        &mut self,
        start: GameIndex,
        end: GameIndex,
        proxies: &Vec<Address>,
        address: Address,
    ) -> (r: Result<GameIndex, CreateGameError>)
        requires
            old(self).done() < old(self).count(),
        ensures
            final(self).blocks() == old(self).blocks(),
            final(self).roots() == old(self).roots(),
            match created_index(start, end, proxies@, address) {
                Some(i) => {
                    &&& r == Ok::<GameIndex, CreateGameError>(i)
                    &&& final(self).parent() == i
                    &&& final(self).done() == old(self).done() + 1
                },
                None => {
                    &&& r == Err::<GameIndex, CreateGameError>(CreateGameError::MissingGame)
                    &&& final(self).parent() == old(self).parent()
                    &&& final(self).done() == old(self).done()
                },
            },
    {
        match find_created_game(start, end, proxies, address) {
            Ok(new_game_index) => {
                self.parent_game_index = new_game_index;
                assert(self.next < self.claim_blocks.len());
                self.next = self.next + 1;
                Ok(new_game_index)
            },
            Err(e) => Err(e),
        }
    }
}

} // verus!
