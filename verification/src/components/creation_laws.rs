//! Which games are created, in terms of the blocks that they claim and the games they build on.

use vstd::arithmetic::power::pow;
use vstd::prelude::*;

use crate::common::bytes;
use crate::common::fixed_bytes::Address;
use crate::common::fixed_bytes::B256;
use crate::common::primitives::GameIndex;
use crate::components::game_creator;
use crate::components::game_creator::find_created_event;
use crate::components::game_creator::find_created_game;
use crate::components::game_creator::needs_lookup;
use crate::components::game_creator::search_claim;
use crate::components::game_creator::ClaimSearch;
use crate::components::game_creator::ClaimStep;
use crate::components::game_creator::CreateDecision;
use crate::components::game_creator::CreateGameError;
use crate::components::game_creator::CreationPlan;
use crate::components::game_creator::GameCreation;
use crate::components::game_creator::GameRequest;
use crate::rpc::cl;
use crate::rpc::cl::SafeDBClient;
use crate::rpc::cl::SafeHeadResponse;
use crate::rpc::safe_head_laws;

verus! {

/// The block that a plan looks up after it has claimed `blocks` on top of a block.
pub open spec fn block_after(canonical: u64, blocks: Seq<u64>) -> int {
    if blocks.len() == 0 {
        canonical + 1
    } else {
        blocks.last() + 1
    }
}

/// A plan claims the blocks that it is told to, in that order. The first that it looks up is the one
/// after the canonical head's, and then the one after the last that it has claimed, as long as that
/// one is finalized and there are not enough games.
pub proof fn plan_goes_on_after_last_claim(
    canonical: u64,
    l2_finalized: u64,
    max_games: usize,
    plans: Seq<CreationPlan>,
    calls: Seq<&mut CreationPlan>,
    blocks: Seq<u64>,
    last: &CreationPlan,
    next: Option<u64>,
    result: Vec<u64>,
)
    requires
        plans.len() == blocks.len() + 1,
        calls.len() == blocks.len(),
        call_ensures(CreationPlan::new, (canonical, l2_finalized, max_games), plans[0]),
        forall|k: int|
            0 <= k < blocks.len() ==> {
                &&& *(#[trigger] calls[k]) == plans[k]
                &&& call_ensures(CreationPlan::claim, (calls[k], blocks[k]), ())
                &&& *final(calls[k]) == plans[k + 1]
            },
        *last == plans[blocks.len() as int],
        call_ensures(CreationPlan::next_target, (last,), next),
        call_ensures(CreationPlan::into_blocks, (*last,), result),
    ensures
        result@ == blocks,
        next is Some <==> block_after(canonical, blocks) <= l2_finalized && blocks.len()
            < max_games,
        next matches Some(target) ==> target == block_after(canonical, blocks),
{
    plan_holds_claims(canonical, l2_finalized, max_games, plans, calls, blocks, blocks.len() as int);
    assert(blocks.take(blocks.len() as int) =~= blocks);
}

proof fn plan_holds_claims(
    canonical: u64,
    l2_finalized: u64,
    max_games: usize,
    plans: Seq<CreationPlan>,
    calls: Seq<&mut CreationPlan>,
    blocks: Seq<u64>,
    n: int,
)
    requires
        plans.len() == blocks.len() + 1,
        calls.len() == blocks.len(),
        call_ensures(CreationPlan::new, (canonical, l2_finalized, max_games), plans[0]),
        forall|k: int|
            0 <= k < blocks.len() ==> {
                &&& *(#[trigger] calls[k]) == plans[k]
                &&& call_ensures(CreationPlan::claim, (calls[k], blocks[k]), ())
                &&& *final(calls[k]) == plans[k + 1]
            },
        0 <= n <= blocks.len(),
    ensures
        plans[n].blocks() == blocks.take(n),
        plans[n].target() == block_after(canonical, blocks.take(n)),
        plans[n].last_block() == l2_finalized,
        plans[n].max_games() == max_games,
    decreases n,
{
    if n > 0 {
        let k = n - 1;
        plan_holds_claims(canonical, l2_finalized, max_games, plans, calls, blocks, k);
        assert(*calls[k] == plans[k]);
        assert(blocks.take(n) =~= blocks.take(k).push(blocks[k]));
    } else {
        assert(blocks.take(0) =~= Seq::empty());
    }
}

/// If the node answers truthfully, the block that a game claims is the safe head at the first L1
/// block that makes the target safe: not below the target, and the safe head of no earlier L1 block
/// of the interval. This holds as long as the target is safe at the end of the interval.
pub proof fn game_claims_first_safe_head(
    safe: spec_fn(u64) -> u64,
    client: &SafeDBClient,
    target: u64,
    start: u64,
    end: u64,
    replies: &Vec<SafeHeadResponse>,
    step: ClaimStep,
)
    requires
        call_ensures(
            search_claim,
            (client, target, ClaimSearch::Within { start, end }, replies),
            step,
        ),
        safe_head_laws::monotone(safe),
        safe_head_laws::faithful(safe, client.ranges()),
        start <= end,
        target <= safe(end),
    ensures
        match step {
            ClaimStep::Claim { l2_safe } => {
                &&& target <= l2_safe
                &&& exists|l1: u64|
                    l1 <= end && #[trigger] safe(l1) == l2_safe && forall|n: u64|
                        start <= n < l1 ==> #[trigger] safe(n) < target
            },
            ClaimStep::Query { next: ClaimSearch::SafeAt { l1_safe }, l1_block_numbers } => {
                &&& l1_safe <= end
                &&& target <= safe(l1_safe)
                &&& forall|n: u64| start <= n < l1_safe ==> #[trigger] safe(n) < target
                &&& l1_block_numbers@ == seq![l1_safe]
            },
            ClaimStep::Query { next: ClaimSearch::Within { start: s, end: e }, l1_block_numbers } => {
                &&& start <= s < e <= end
                &&& target <= safe(e)
                &&& forall|n: u64| start <= n < s ==> #[trigger] safe(n) < target
                &&& forall|i: int|
                    0 <= i < l1_block_numbers@.len() ==> s <= #[trigger] l1_block_numbers@[i] < e
            },
        },
{
    let m = client.ranges();
    let new_start = cl::narrowed_start(m, target, start, end);
    let new_end = cl::narrowed_end(m, target, new_start as u64, end);
    safe_head_laws::narrowing_keeps_the_answer(safe, m, target, start, end, end);
    if m.contains_key(target) {
        let l1 = cl::cached_answer(m, target, end);
        safe_head_laws::cached_block_is_answered(safe, m, target);
        assert(game_creator::claims_safe_head(*client, target, l1, step));
        assert(forall|n: u64| n < l1 ==> #[trigger] safe(n) < target);
        assert(target <= safe(l1));
        if let ClaimStep::Claim { l2_safe } = step {
            safe_head_laws::known_safe_head_is_true(safe, m, l2_safe, l1);
        }
    } else if new_start == new_end {
        let l1 = new_end as u64;
        assert(game_creator::claims_safe_head(*client, target, l1, step));
        safe_head_laws::found_block_covers_target(safe, target, start, end, l1);
        if let ClaimStep::Claim { l2_safe } = step {
            safe_head_laws::known_safe_head_is_true(safe, m, l2_safe, l1);
        }
    } else {
        crate::rpc::client_laws::narrowed_bounds_are_true(safe, m, target, start, end);
        cl::query_points_are_within(new_start as u64, new_end as u64, client.batch());
    }
}

/// Once the safe head at the L1 block was asked for, the answer is the block that is claimed.
pub proof fn game_claims_answered_safe_head(
    client: &SafeDBClient,
    target: u64,
    l1_safe: u64,
    replies: &Vec<SafeHeadResponse>,
    step: ClaimStep,
)
    requires
        call_ensures(search_claim, (client, target, ClaimSearch::SafeAt { l1_safe }, replies), step),
        replies@.len() > 0,
    ensures
        step == (ClaimStep::Claim { l2_safe: replies@[0].safe_head.number }),
{
}

/// A game that was just created is found among the new games: it is the only one, or the first of
/// them with its address. It is not found only if no new game has its address.
pub proof fn created_game_is_found(
    start: GameIndex,
    end: GameIndex,
    proxies: &Vec<Address>,
    address: Address,
    r: Result<GameIndex, CreateGameError>,
)
    requires
        call_ensures(find_created_game, (start, end, proxies, address), r),
    ensures
        end == start + 1 ==> r == Ok::<GameIndex, CreateGameError>(start),
        end != start + 1 ==> match r {
            Ok(i) => {
                &&& start <= i < end
                &&& i - start < proxies@.len()
                &&& proxies@[i - start] == address
                &&& forall|k: int| 0 <= k < i - start ==> #[trigger] proxies@[k] != address
            },
            Err(e) => {
                &&& e == CreateGameError::MissingGame
                &&& forall|k: int|
                    0 <= k < proxies@.len() && start + k < end ==> #[trigger] proxies@[k]
                        != address
            },
        },
{
    let n = game_creator::listed(start, end, proxies@);
    if end != start + 1 {
        if r is Err && exists|k: int|
            0 <= k < proxies@.len() && start + k < end && #[trigger] proxies@[k] == address {
            let k = choose|k: int|
                0 <= k < proxies@.len() && start + k < end && #[trigger] proxies@[k] == address;
            first_proxy_exists(proxies@, address, n, k);
        }
    }
}

proof fn first_proxy_exists(proxies: Seq<Address>, address: Address, n: int, k: int)
    requires
        0 <= k < n <= proxies.len(),
        proxies[k] == address,
    ensures
        exists|i: int| game_creator::is_first_proxy(proxies, address, n, i),
    decreases k,
{
    if !game_creator::is_first_proxy(proxies, address, n, k) {
        let j = choose|j: int| 0 <= j < k && #[trigger] proxies[j] == address;
        first_proxy_exists(proxies, address, n, j);
    }
}

/// The addresses of the new games are looked up unless there is exactly one.
pub proof fn only_new_game_needs_no_lookup(start: GameIndex, end: GameIndex, needed: bool)
    requires
        call_ensures(needs_lookup, (start, end), needed),
    ensures
        needed <==> end - start != 1,
{
}

/// The event of a game's creation is the first log with its signature; there is an error if there is
/// none.
pub proof fn first_matching_event_is_found(
    topics: &Vec<Option<B256>>,
    signature: B256,
    r: Result<usize, CreateGameError>,
    k: int,
)
    requires
        call_ensures(find_created_event, (topics, signature), r),
        0 <= k < topics@.len(),
        topics@[k] == Some(signature),
    ensures
        r matches Ok(i) && i <= k && topics@[i as int] == Some(signature),
{
    if r is Err {
        assert(game_creator::has_no_log(topics@, signature));
    }
}

/// The byte at place `i` of a number that is written in `len` bytes, the heaviest byte first.
pub open spec fn byte_at(value: int, len: int, i: int) -> int {
    (value / pow(256, (len - 1 - i) as nat)) % 256
}

/// The next game claims the next block and its output root. Its extra data is the block's number in
/// 32 bytes, then the parent's index in 4 bytes, the heaviest byte first.
pub proof fn request_names_block_and_parent(
    creation: &GameCreation,
    request: GameRequest,
    i: int,
)
    requires
        call_ensures(GameCreation::request, (creation,), Some(request)),
        0 <= i < 36,
    ensures
        creation.done() < creation.blocks().len(),
        creation.done() < creation.roots().len(),
        request.claim_block == creation.blocks()[creation.done() as int],
        request.output_root == creation.roots()[creation.done() as int],
        request.extra_data@.len() == 36,
        i < 32 ==> request.extra_data@[i] == byte_at(request.claim_block as int, 32, i),
        i >= 32 ==> request.extra_data@[i] == byte_at(creation.parent() as int, 4, i - 32),
{
    let (block, parent) = (request.claim_block as nat, creation.parent() as nat);
    bytes::be_bytes_len(block, 32);
    bytes::be_bytes_len(parent, 4);
    if i < 32 {
        bytes::be_bytes_place(block, 32, i);
    } else {
        bytes::be_bytes_place(parent, 4, i - 32);
    }
}

/// There is a next game as long as a block and an output root are left.
pub proof fn all_games_are_requested(creation: &GameCreation, request: Option<GameRequest>)
    requires
        call_ensures(GameCreation::request, (creation,), request),
    ensures
        request is Some <==> creation.done() < creation.blocks().len() && creation.done()
            < creation.roots().len(),
{
}

/// A game that exists already is passed over: the next one has the same parent. A game that does not
/// exist is sent, and waits until it is created.
pub proof fn existing_game_is_passed_over(
    creation: &mut GameCreation,
    existing: Address,
    decision: CreateDecision,
)
    requires
        call_ensures(GameCreation::decide, (creation, existing), decision),
    ensures
        final(creation).blocks() == old(creation).blocks(),
        final(creation).roots() == old(creation).roots(),
        final(creation).parent() == old(creation).parent(),
        (exists|i: int| 0 <= i < 20 && #[trigger] existing.bytes@[i] != 0) ==> decision is Skip
            && final(creation).done() == old(creation).done() + 1,
        (forall|i: int| 0 <= i < 20 ==> #[trigger] existing.bytes@[i] == 0) ==> decision is Send
            && final(creation).done() == old(creation).done(),
{
    assert(forall|i: int| 0 <= i < 20 ==> #[trigger] existing.bytes@[i] == existing@[i]);
    if exists|i: int| 0 <= i < 20 && #[trigger] existing.bytes@[i] != 0 {
        let i = choose|i: int| 0 <= i < 20 && #[trigger] existing.bytes@[i] != 0;
        assert(existing@[i] != 0);
    }
}

/// Games are created one on top of the other: a created game is the parent of the next one, under
/// the index at which it was found. If it is not found, nothing changes.
pub proof fn created_game_is_next_parent(
    creation: &mut GameCreation,
    start: GameIndex,
    end: GameIndex,
    proxies: &Vec<Address>,
    address: Address,
    r: Result<GameIndex, CreateGameError>,
    found: Result<GameIndex, CreateGameError>,
)
    requires
        call_ensures(GameCreation::created, (creation, start, end, proxies, address), r),
        call_ensures(find_created_game, (start, end, proxies, address), found),
    ensures
        r == found,
        final(creation).blocks() == old(creation).blocks(),
        final(creation).roots() == old(creation).roots(),
        r matches Ok(i) ==> final(creation).parent() == i && final(creation).done() == old(
            creation,
        ).done() + 1,
        r is Err ==> final(creation).parent() == old(creation).parent() && final(creation).done()
            == old(creation).done(),
{
}

} // verus!
