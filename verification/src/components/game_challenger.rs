//! Which games to challenge.

use std::collections::BTreeMap;

use vstd::prelude::*;

use crate::common::bytes;
use crate::common::contract::L2Output;
use crate::common::fixed_bytes::Address;
use crate::common::fixed_bytes::B256;
use crate::common::hashing;
use crate::common::hashing::keccak256;
use crate::common::primitives;
use crate::common::primitives::pick_random_games;
use crate::common::primitives::GameIndex;
use crate::common::state::State;
use crate::rpc::el::Header;
use crate::rpc::el::HeaderView;

verus! {

/// How games are challenged.
#[derive(Clone, Copy, Debug, PartialEq, Eq)]
pub struct GameChallengerConfig {
    /// How many games are looked at in one round.
    pub batch_size: usize,
}

/// The output root of the L2 block with this header: the hash of its state root, its withdrawals
/// root and its own hash. A header without a withdrawals root has none.
pub open spec fn output_root_of(header: HeaderView) -> Option<Seq<u8>> {
    match header.withdrawals_root {
        Some(withdrawals_root) => Some(
            hashing::keccak256_digest(
                bytes::be_bytes(0, 32) + header.state_root@ + withdrawals_root@
                    + hashing::keccak256_digest(header.rlp),
            ),
        ),
        None => None,
    }
}

/// The output root of the L2 block with this header.
pub fn get_output_root(header: &Header) -> (r: Option<B256>)
    ensures
        r is Some <==> output_root_of(header@) is Some,
        r is Some ==> r->0@ == output_root_of(header@)->0,
        header@.is_encoded(),
{
    match header.withdrawals_root() {
        Some(withdrawals_root) => {
            let output = L2Output {
                zero: 0,
                l2_state_root: header.state_root(),
                l2_storage_hash: withdrawals_root,
                l2_claim_hash: header.hash_slow(),
            };
            Some(keccak256(output.abi_encode().as_slice()))
        },
        None => None,
    }
}

/// The games that will surely be won, with their addresses.
pub fn next_games_to_challenge(state: &State, now: u64) -> (r: BTreeMap<GameIndex, Address>)
    ensures
        forall|i: GameIndex| #[trigger]
            r@.contains_key(i) <==> state.games@.contains_key(i) && state.surely_wins(
                state.games@[i],
                now,
            ),
        forall|i: GameIndex| #[trigger]
            r@.contains_key(i) ==> r@[i] == state.games@[i].game_address,
{
    let mut next_games: BTreeMap<GameIndex, Address> = BTreeMap::new();
    for entry in it: state.games.iter()
        invariant
            forall|k: GameIndex| #[trigger]
                state.games@.contains_key(k) ==> it.seq().contains((&k, &state.games@[k])),
            forall|i: GameIndex| #[trigger]
                next_games@.contains_key(i) ==> state.games@.contains_key(i) && state.surely_wins(
                    state.games@[i],
                    now,
                ) && next_games@[i] == state.games@[i].game_address,
            forall|j: int|
                0 <= j < it.index() && state.surely_wins(*(#[trigger] it.seq()[j]).1, now)
                    ==> next_games@.contains_key(*it.seq()[j].0),
    {
        assert(state.games@.contains_key(*it.seq()[it.index()].0));
        if state.should_challenge_game(entry.1, now) {
            next_games.insert(*entry.0, entry.1.game_address);
        }
    }
    next_games
}

/// Each number is greater than the ones before it.
pub open spec fn is_increasing(numbers: Seq<u64>) -> bool {
    forall|i: int, j: int|
        0 <= i < j < numbers.len() ==> #[trigger] numbers[i] < #[trigger] numbers[j]
}

/// `blocks` are the blocks that the given games claim, as far as the games are known: in order, and
/// none twice.
pub open spec fn are_claim_blocks(
    state: &State,
    games: Seq<GameIndex>,
    blocks: Seq<u64>,
) -> bool {
    &&& is_increasing(blocks)
    &&& forall|k: int|
        0 <= k < games.len() && state.games@.contains_key(#[trigger] games[k]) ==> blocks.contains(
            state.games@[games[k]].claim_block,
        )
    &&& forall|i: int| 0 <= i < blocks.len() ==> is_claimed(state, games, #[trigger] blocks[i])
}

/// One of the given games is known to claim this block.
pub open spec fn is_claimed(state: &State, games: Seq<GameIndex>, block: u64) -> bool {
    exists|k: int|
        0 <= k < games.len() && state.games@.contains_key(#[trigger] games[k])
            && state.games@[games[k]].claim_block == block
}

/// Puts a number into a list that stays in order and holds nothing twice.
fn insert_in_order(blocks: &mut Vec<u64>, block: u64)
    requires
        is_increasing(old(blocks)@),
    ensures
        is_increasing(final(blocks)@),
        forall|b: u64| #[trigger]
            final(blocks)@.contains(b) <==> b == block || old(blocks)@.contains(b),
{
    let mut i: usize = 0;
    while i < blocks.len() && blocks[i] < block
        invariant
            i <= blocks@.len(),
            *blocks == *old(blocks),
            forall|j: int| 0 <= j < i ==> #[trigger] blocks@[j] < block,
        decreases blocks.len() - i,
    {
        i = i + 1;
    }
    if i < blocks.len() && blocks[i] == block {
        assert(blocks@[i as int] == block);
        return;
    }
    let ghost before = blocks@;
    blocks.insert(i, block);
    proof {
        assert(blocks@[i as int] == block);
        assert forall|b: u64| #[trigger] blocks@.contains(b) implies b == block || before.contains(
            b,
        ) by {
            let k = choose|k: int| 0 <= k < blocks@.len() && blocks@[k] == b;
            if k < i {
                assert(before[k] == b);
            } else if k > i {
                assert(before[k - 1] == b);
            }
        }
        assert forall|b: u64| #[trigger] before.contains(b) implies blocks@.contains(b) by {
            let k = choose|k: int| 0 <= k < before.len() && before[k] == b;
            if k < i {
                assert(blocks@[k] == b);
            } else {
                assert(blocks@[k + 1] == b);
            }
        }
    }
}

/// The blocks that the given games claim, in order.
pub fn claim_blocks_of(state: &State, games: &Vec<GameIndex>) -> (r: Vec<u64>)
    ensures
        are_claim_blocks(state, games@, r@),
{
    let mut blocks: Vec<u64> = Vec::new();
    for n in 0..games.len()
        invariant
            are_claim_blocks(state, games@.take(n as int), blocks@),
    {
        let ghost before = blocks@;
        let ghost seen = games@.take(n as int);
        let ghost seen_now = games@.take(n + 1);
        assert(seen_now.drop_last() =~= seen);
        if let Some(game) = state.games.get(&games[n]) {
            insert_in_order(&mut blocks, game.claim_block);
        }
        proof {
            assert forall|k: int|
                0 <= k < seen_now.len() && state.games@.contains_key(
                    #[trigger] seen_now[k],
                ) implies blocks@.contains(state.games@[seen_now[k]].claim_block) by {
                if k < n {
                    assert(seen[k] == seen_now[k]);
                }
            }
            assert forall|i: int| 0 <= i < blocks@.len() implies is_claimed(
                state,
                seen_now,
                #[trigger] blocks@[i],
            ) by {
                assert(blocks@.contains(blocks@[i]));
                if before.contains(blocks@[i]) {
                    let p = choose|p: int| 0 <= p < before.len() && before[p] == blocks@[i];
                    let k = choose|k: int|
                        0 <= k < seen.len() && state.games@.contains_key(#[trigger] seen[k])
                            && state.games@[seen[k]].claim_block == before[p];
                    assert(seen_now[k] == seen[k]);
                } else {
                    assert(seen_now[n as int] == games@[n as int]);
                }
            }
        }
    }
    assert(games@.take(games@.len() as int) =~= games@);
    blocks
}

/// What is left of a batch that holds `n` games already.
pub open spec fn batch_rest(batch_size: usize, n: nat) -> usize {
    if batch_size < n {
        0
    } else {
        (batch_size - n) as usize
    }
}

/// The blocks whose output roots are looked up: those that the given games claim, and those of
/// other games picked at random that make up a batch with them.
pub fn blocks_to_refresh(state: &State, games: Vec<GameIndex>, batch_size: usize) -> (r: Vec<u64>)
    ensures
        exists|picks: Seq<GameIndex>| #[trigger]
            primitives::is_pick(
                state.fetched_range,
                batch_rest(batch_size, games@.len()),
                picks,
            ) && are_claim_blocks(state, games@ + picks, r@),
{
    let rest: usize = if batch_size < games.len() {
        0
    } else {
        batch_size - games.len()
    };
    let range = state.fetched_range.start..state.fetched_range.end;
    let mut picks = pick_random_games(range, rest);
    let ghost picked = picks@;
    let mut game_indexes = games;
    game_indexes.append(&mut picks);
    assert(game_indexes@ =~= games@ + picked);
    assert(primitives::is_pick(
        state.fetched_range,
        batch_rest(batch_size, games@.len()),
        picked,
    ));
    claim_blocks_of(state, &game_indexes)
}

/// The bytes of the words in a map.
pub open spec fn word_bytes(m: Map<u64, B256>) -> Map<u64, Seq<u8>> {
    m.map_values(|word: B256| word@)
}

/// The output roots `roots` after those of the first `n` of `headers` were noted, each under its
/// block's number.
pub open spec fn roots_after(
    roots: Map<u64, Seq<u8>>,
    headers: Seq<Header>,
    n: nat,
) -> Map<u64, Seq<u8>>
    decreases n,
{
    if n == 0 {
        roots
    } else {
        let before = roots_after(roots, headers, (n - 1) as nat);
        match output_root_of(headers[n - 1]@) {
            Some(root) => before.insert(headers[n - 1]@.number, root),
            None => before,
        }
    }
}

/// Notes the output roots of the L2 blocks with these headers as the correct ones.
pub fn note_output_roots(state: &mut State, headers: &Vec<Header>)
    ensures
        word_bytes(final(state).correct_output_roots@) == roots_after(
            word_bytes(old(state).correct_output_roots@),
            headers@,
            headers@.len(),
        ),
        final(state).game_count == old(state).game_count,
        final(state).games == old(state).games,
        final(state).fetched_range == old(state).fetched_range,
        final(state).anchor_root == old(state).anchor_root,
        final(state).retirement_timestamp == old(state).retirement_timestamp,
{
    for n in 0..headers.len()
        invariant
            word_bytes(state.correct_output_roots@) == roots_after(
                word_bytes(old(state).correct_output_roots@),
                headers@,
                n as nat,
            ),
            state.game_count == old(state).game_count,
            state.games == old(state).games,
            state.fetched_range == old(state).fetched_range,
            state.anchor_root == old(state).anchor_root,
            state.retirement_timestamp == old(state).retirement_timestamp,
    {
        let header = &headers[n];
        let ghost before = state.correct_output_roots@;
        if let Some(root) = get_output_root(header) {
            state.correct_output_roots.insert(header.number(), root);
            assert(word_bytes(before.insert(header@.number, root)) =~= word_bytes(before).insert(
                header@.number,
                root@,
            ));
        }
    }
}

} // verus!
