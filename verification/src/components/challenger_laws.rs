//! Which output roots the challenger looks up, and what it takes them for.

use vstd::prelude::*;

use crate::common::bytes;
use crate::common::fixed_bytes::B256;
use crate::common::hashing;
use crate::common::primitives;
use crate::common::primitives::GameIndex;
use crate::common::state::State;
use crate::components::game_challenger;
use crate::components::game_challenger::blocks_to_refresh;
use crate::components::game_challenger::claim_blocks_of;
use crate::components::game_challenger::get_output_root;
use crate::components::game_challenger::note_output_roots;
use crate::rpc::el::Header;

verus! {

/// What an output root is the hash of: 32 zero bytes, the state root, the withdrawals root and the
/// hash of the block.
pub open spec fn output_bytes(header: Header, withdrawals_root: B256) -> Seq<u8> {
    Seq::new(32, |i: int| 0u8) + header@.state_root.bytes@ + withdrawals_root.bytes@
        + hashing::keccak256_digest(header@.rlp)
}

proof fn zero_word_is_zero()
    ensures
        bytes::be_bytes(0, 32) == Seq::new(32, |i: int| 0u8),
{
    bytes::be_bytes_len(0, 32);
    assert forall|i: int| 0 <= i < 32 implies #[trigger] bytes::be_bytes(0, 32)[i] == 0 by {
        bytes::be_bytes_place(0, 32, i);
        vstd::arithmetic::power::lemma_pow_positive(256, (32 - 1 - i) as nat);
        vstd::arithmetic::div_mod::lemma_div_basics(
            vstd::arithmetic::power::pow(256, (32 - 1 - i) as nat),
        );
    }
    assert(bytes::be_bytes(0, 32) =~= Seq::new(32, |i: int| 0u8));
}

/// A block has an output root if its header has a withdrawals root. It is the hash of the output's
/// four words.
pub proof fn output_root_hashes_four_words(header: &Header, root: Option<B256>)
    requires
        call_ensures(get_output_root, (header,), root),
    ensures
        root is Some <==> header@.withdrawals_root is Some,
        root matches Some(word) ==> word.bytes@ == hashing::keccak256_digest(
            output_bytes(*header, header@.withdrawals_root->0),
        ),
{
    zero_word_is_zero();
}

/// The header at `k` is the last of those with the number `n` that have a withdrawals root.
pub open spec fn is_last_with_root(headers: Seq<Header>, n: u64, k: int) -> bool {
    &&& 0 <= k < headers.len()
    &&& headers[k]@.number == n
    &&& headers[k]@.withdrawals_root is Some
    &&& forall|j: int|
        k < j < headers.len() && (#[trigger] headers[j])@.number == n
            ==> headers[j]@.withdrawals_root is None
}

proof fn roots_after_headers(
    roots: Map<u64, Seq<u8>>,
    headers: Seq<Header>,
    m: nat,
    n: u64,
    k: int,
)
    requires
        m <= headers.len(),
    ensures
        ({
            let after = game_challenger::roots_after(roots, headers, m);
            let seen = headers.take(m as int);
            &&& is_last_with_root(seen, n, k) ==> after.contains_key(n) && after[n]
                == hashing::keccak256_digest(
                output_bytes(headers[k], headers[k]@.withdrawals_root->0),
            )
            &&& (forall|j: int|
                0 <= j < m && (#[trigger] headers[j])@.number == n
                    ==> headers[j]@.withdrawals_root is None) ==> {
                &&& after.contains_key(n) <==> roots.contains_key(n)
                &&& roots.contains_key(n) ==> after[n] == roots[n]
            }
        }),
    decreases m,
{
    zero_word_is_zero();
    if m > 0 {
        let p = (m - 1) as nat;
        roots_after_headers(roots, headers, p, n, k);
        let seen = headers.take(m as int);
        let before = headers.take(p as int);
        assert(forall|j: int| 0 <= j < p ==> #[trigger] before[j] == seen[j]);
        assert(seen[p as int] == headers[p as int]);
        if is_last_with_root(seen, n, k) {
            if k < p {
                assert(is_last_with_root(before, n, k)) by {
                    assert(before[k] == seen[k]);
                    assert forall|j: int|
                        k < j < before.len() && (#[trigger] before[j])@.number
                            == n implies before[j]@.withdrawals_root is None by {
                        assert(seen[j] == before[j]);
                    }
                }
                assert(seen[p as int]@.number == n ==> seen[p as int]@.withdrawals_root is None);
            }
        }
    }
}

/// The correct output root of a block is the one of the last header that gives one. What is known of
/// other blocks, and of anything else, does not change.
pub proof fn noted_roots_are_those_of_headers(
    state: &mut State,
    headers: &Vec<Header>,
    n: u64,
    k: int,
)
    requires
        call_ensures(note_output_roots, (state, headers), ()),
    ensures
        is_last_with_root(headers@, n, k) ==> final(state).correct_output_roots@.contains_key(n)
            && final(state).correct_output_roots@[n].bytes@ == hashing::keccak256_digest(
            output_bytes(headers@[k], headers@[k]@.withdrawals_root->0),
        ),
        (forall|j: int|
            0 <= j < headers@.len() && (#[trigger] headers@[j])@.number == n
                ==> headers@[j]@.withdrawals_root is None) ==> {
            &&& final(state).correct_output_roots@.contains_key(n) <==> old(
                state,
            ).correct_output_roots@.contains_key(n)
            &&& old(state).correct_output_roots@.contains_key(n)
                ==> final(state).correct_output_roots@[n].bytes@ == old(
                state,
            ).correct_output_roots@[n].bytes@
        },
        final(state).games@ == old(state).games@,
        final(state).fetched_range == old(state).fetched_range,
        final(state).anchor_root == old(state).anchor_root,
        final(state).game_count == old(state).game_count,
        final(state).retirement_timestamp == old(state).retirement_timestamp,
{
    let before = old(state).correct_output_roots@;
    let after = final(state).correct_output_roots@;
    roots_after_headers(
        game_challenger::word_bytes(before),
        headers@,
        headers@.len(),
        n,
        k,
    );
    assert(headers@.take(headers@.len() as int) =~= headers@);
    assert(game_challenger::word_bytes(after).contains_key(n) <==> after.contains_key(n));
    assert(game_challenger::word_bytes(before).contains_key(n) <==> before.contains_key(n));
}

/// The blocks to look up are in order, and none stands twice. Among them is the block that each given
/// game claims, as far as the game is known, and each is claimed by a known game.
pub proof fn claimed_blocks_are_looked_up(
    state: &State,
    games: Vec<GameIndex>,
    batch_size: usize,
    blocks: Vec<u64>,
    i: int,
)
    requires
        call_ensures(blocks_to_refresh, (state, games, batch_size), blocks),
    ensures
        forall|a: int, b: int|
            0 <= a < b < blocks@.len() ==> #[trigger] blocks@[a] < #[trigger] blocks@[b],
        0 <= i < games@.len() && state.games@.contains_key(games@[i]) ==> blocks@.contains(
            state.games@[games@[i]].claim_block,
        ),
        0 <= i < blocks@.len() ==> exists|g: GameIndex|
            state.games@.contains_key(g) && (#[trigger] state.games@[g]).claim_block == blocks@[i]
                && (games@.contains(g) || state.fetched_range.start <= g
                < state.fetched_range.end),
{
    let rest = game_challenger::batch_rest(batch_size, games@.len());
    let picks = choose|picks: Seq<GameIndex>| #[trigger]
        primitives::is_pick(state.fetched_range, rest, picks)
            && game_challenger::are_claim_blocks(state, games@ + picks, blocks@);
    let all = games@ + picks;
    if 0 <= i < games@.len() {
        assert(all[i] == games@[i]);
    }
    if 0 <= i < blocks@.len() {
        assert(game_challenger::is_claimed(state, all, blocks@[i]));
        let k = choose|k: int|
            0 <= k < all.len() && state.games@.contains_key(#[trigger] all[k])
                && state.games@[all[k]].claim_block == blocks@[i];
        let g = all[k];
        if k < games@.len() {
            assert(games@[k] == g);
        } else {
            assert(picks[k - games@.len()] == g);
        }
        assert(state.games@[g].claim_block == blocks@[i]);
    }
}

/// A batch that the given games do not fill is made up with fetched games: if it can take all of
/// them, the blocks of all fetched games are looked up.
pub proof fn spare_batch_refreshes_fetched_games(
    state: &State,
    games: Vec<GameIndex>,
    batch_size: usize,
    blocks: Vec<u64>,
    g: GameIndex,
)
    requires
        call_ensures(blocks_to_refresh, (state, games, batch_size), blocks),
        state.fetched_range.start <= g < state.fetched_range.end,
        state.games@.contains_key(g),
        games@.len() + (state.fetched_range.end - state.fetched_range.start) <= batch_size,
    ensures
        blocks@.contains(state.games@[g].claim_block),
{
    let rest = game_challenger::batch_rest(batch_size, games@.len());
    let picks = choose|picks: Seq<GameIndex>| #[trigger]
        primitives::is_pick(state.fetched_range, rest, picks)
            && game_challenger::are_claim_blocks(state, games@ + picks, blocks@);
    let all = games@ + picks;
    let k = g - state.fetched_range.start;
    assert(picks[k] == g);
    assert(all[games@.len() + k] == g);
}

/// No more blocks are looked up than a batch takes, or than there are games given.
pub proof fn batch_is_not_exceeded(
    state: &State,
    games: Vec<GameIndex>,
    batch_size: usize,
    blocks: Vec<u64>,
)
    requires
        call_ensures(blocks_to_refresh, (state, games, batch_size), blocks),
    ensures
        blocks@.len() <= batch_size || blocks@.len() <= games@.len(),
{
    let rest = game_challenger::batch_rest(batch_size, games@.len());
    let picks = choose|picks: Seq<GameIndex>| #[trigger]
        primitives::is_pick(state.fetched_range, rest, picks)
            && game_challenger::are_claim_blocks(state, games@ + picks, blocks@);
    distinct_blocks_need_games(state, games@ + picks, blocks@);
}

/// Distinct blocks are claimed by as many games.
proof fn distinct_blocks_need_games(state: &State, games: Seq<GameIndex>, blocks: Seq<u64>)
    requires
        game_challenger::are_claim_blocks(state, games, blocks),
    ensures
        blocks.len() <= games.len(),
{
    let place = |i: int|
        choose|k: int|
            0 <= k < games.len() && state.games@.contains_key(#[trigger] games[k])
                && state.games@[games[k]].claim_block == blocks[i];
    let places = Seq::new(blocks.len(), place);
    assert forall|i: int| 0 <= i < blocks.len() implies 0 <= #[trigger] places[i] < games.len()
        && state.games@[games[places[i]]].claim_block == blocks[i] by {
        assert(game_challenger::is_claimed(state, games, blocks[i]));
    }
    assert(places.no_duplicates()) by {
        assert forall|i: int, j: int|
            0 <= i < places.len() && 0 <= j < places.len() && i != j implies places[i]
            != places[j] by {
            if i < j {
                assert(blocks[i] < blocks[j]);
            } else {
                assert(blocks[j] < blocks[i]);
            }
        }
    }
    places.unique_seq_to_set();
    let all = vstd::set_lib::set_int_range(0, games.len() as int);
    vstd::set_lib::lemma_int_range(0, games.len() as int);
    assert forall|p: int| places.to_set().contains(p) implies all.contains(p) by {
        let i = choose|i: int| 0 <= i < places.len() && places[i] == p;
    }
    vstd::set_lib::lemma_len_subset(places.to_set(), all);
}

/// The blocks of a list of games, for the list alone.
pub proof fn listed_blocks_are_in_order(
    state: &State,
    games: &Vec<GameIndex>,
    blocks: Vec<u64>,
    n: u64,
)
    requires
        call_ensures(claim_blocks_of, (state, games), blocks),
    ensures
        forall|a: int, b: int|
            0 <= a < b < blocks@.len() ==> #[trigger] blocks@[a] < #[trigger] blocks@[b],
        blocks@.contains(n) <==> exists|k: int|
            0 <= k < games@.len() && state.games@.contains_key(#[trigger] games@[k])
                && state.games@[games@[k]].claim_block == n,
{
    if blocks@.contains(n) {
        let i = choose|i: int| 0 <= i < blocks@.len() && blocks@[i] == n;
        assert(game_challenger::is_claimed(state, games@, blocks@[i]));
    }
}

} // verus!
