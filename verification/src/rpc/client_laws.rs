//! What the calls of a safe head search give when the rollup node answers truthfully.
//!
//! A node is described by a function `safe` from L1 blocks to the L2 blocks that are
//! safe there.

use vstd::prelude::*;

use crate::common::blocks::BlockNumHash;
use crate::common::blocks::BlockNumberOrTag;
use crate::common::cl_rpc_utils;
use crate::common::fixed_bytes::B256;
use crate::rpc::cl;
use crate::rpc::cl::pick_query_points;
use crate::rpc::cl::L1SafeSearch;
use crate::rpc::cl::L1SafeStep;
use crate::rpc::cl::OutputResponse;
use crate::rpc::cl::SafeDBClient;
use crate::rpc::cl::SafeHeadLookup;
use crate::rpc::cl::SafeHeadResponse;
use crate::rpc::cl::SafeHeadSearch;
use crate::rpc::el;
use crate::rpc::el::header_from_block;
use crate::rpc::el::header_from_raw;
use crate::rpc::el::Header;
use crate::rpc::el::HeaderError;
use crate::rpc::l1_range_cache;
use crate::rpc::l1_range_cache::L1RangeCache;
use crate::rpc::safe_head_laws;
use crate::rpc::spread;
use crate::rpc::spread::bresenham;

verus! {

/// A distribution adds up to the sum, and no two of its terms differ by more than 1.
pub proof fn distribution_is_even(sum: u64, len: u64, terms: Vec<u64>, i: int, j: int)
    requires
        len > 0,
        call_ensures(bresenham, (sum, len), terms),
        0 <= i < len,
        0 <= j < len,
    ensures
        terms@.len() == len,
        terms@.fold_left(0int, |acc: int, term: u64| acc + term) == sum,
        terms@[i] <= terms@[j] + 1,
{
    assert(terms[i] == terms@[i] && terms[j] == terms@[j]);
    total_is_fold(terms@);
}

proof fn total_is_fold(terms: Seq<u64>)
    ensures
        terms.fold_left(0int, |acc: int, term: u64| acc + term) == spread::total(terms),
    decreases terms.len(),
{
    reveal(Seq::fold_left);
    if terms.len() > 0 {
        total_is_fold(terms.drop_last());
    }
}

/// As many blocks are asked for as a batch takes, or all but the last of the interval. They lie in
/// the interval in increasing order, and leave gaps that differ by no more than 1: before the first
/// of them, between two of them, and after the last.
pub proof fn questions_are_spread_evenly(start: u64, end: u64, batch_size: usize, points: Vec<u64>)
    requires
        start <= end,
        call_ensures(pick_query_points, (start, end, batch_size), points),
    ensures
        end - start <= batch_size ==> points@.len() == end - start && forall|i: int|
            0 <= i < points@.len() ==> #[trigger] points@[i] == start + i,
        end - start > batch_size ==> points@.len() == batch_size,
        forall|i: int| 0 <= i < points@.len() ==> start <= #[trigger] points@[i] < end,
        forall|i: int, j: int|
            0 <= i < j < points@.len() ==> #[trigger] points@[i] < #[trigger] points@[j],
        batch_size > 0 && end - start > batch_size ==> {
            let gap = (end - start - batch_size) / (batch_size + 1);
            &&& gap <= points@[0] - start <= gap + 1
            &&& forall|i: int, j: int|
                0 <= i && j == i + 1 && j < points@.len() ==> gap <= #[trigger] points@[j]
                    - #[trigger] points@[i] - 1 <= gap + 1
            &&& gap <= end - points@[batch_size - 1] - 1 <= gap + 1
        },
{
    cl::query_points_are_within(start, end, batch_size);
    if end - start > batch_size {
        let (sum, len) = (end - start - batch_size, batch_size + 1);
        let gap = sum / len;
        assert forall|i: int| 0 <= i < batch_size implies #[trigger] points@[i] == start + i
            + spread::share(sum, len, i + 1) by {
            assert(start <= cl::query_points(start, end, batch_size)[i]);
            share_is_within(sum, len, i + 1);
        }
        if batch_size > 0 {
            share_steps(sum, len, 0);
            assert(0 * sum == 0) by (nonlinear_arith);
            vstd::arithmetic::div_mod::lemma_div_basics(len);
            assert(spread::share(sum, len, 0) == 0);
            assert forall|i: int, j: int|
                0 <= i && j == i + 1 && j < points@.len() implies gap <= #[trigger] points@[j]
                - #[trigger] points@[i] - 1 <= gap + 1 by {
                share_steps(sum, len, j);
            }
            share_steps(sum, len, batch_size as int);
            assert(len * sum == sum * len) by (nonlinear_arith);
            vstd::arithmetic::div_mod::lemma_div_multiples_vanish(sum, len);
            assert(spread::share(sum, len, len) == sum);
        }
    }
}

proof fn share_is_within(sum: int, len: int, i: int)
    requires
        0 <= sum,
        0 < len,
        0 <= i <= len,
    ensures
        0 <= spread::share(sum, len, i) <= sum,
{
    assert(0 <= i * sum <= len * sum) by (nonlinear_arith)
        requires
            0 <= sum,
            0 <= i <= len,
    ;
    vstd::arithmetic::div_mod::lemma_div_is_ordered(0, i * sum, len);
    vstd::arithmetic::div_mod::lemma_div_is_ordered(i * sum, len * sum, len);
    vstd::arithmetic::div_mod::lemma_div_multiples_vanish(sum, len);
    vstd::arithmetic::div_mod::lemma_div_basics(len);
}

/// A share grows with each term by the quotient, or by one more.
proof fn share_steps(sum: int, len: int, i: int)
    requires
        0 <= sum,
        0 < len,
        0 <= i,
    ensures
        sum / len <= spread::share(sum, len, i + 1) - spread::share(sum, len, i) <= sum / len + 1,
{
    let (a, b) = (i * sum, (i + 1) * sum);
    assert(b == a + sum) by (nonlinear_arith)
        requires
            a == i * sum,
            b == (i + 1) * sum,
    ;
    vstd::arithmetic::div_mod::lemma_fundamental_div_mod(a, len);
    vstd::arithmetic::div_mod::lemma_fundamental_div_mod(sum, len);
    let q = a / len + sum / len;
    let r = a % len + sum % len;
    assert(b == q * len + r) by (nonlinear_arith)
        requires
            b == a + sum,
            a == len * (a / len) + a % len,
            sum == len * (sum / len) + sum % len,
            q == a / len + sum / len,
            r == a % len + sum % len,
    ;
    if r < len {
        vstd::arithmetic::div_mod::lemma_fundamental_div_mod_converse(b, len, q, r);
    } else {
        assert(b == (q + 1) * len + (r - len)) by (nonlinear_arith)
            requires
                b == q * len + r,
        ;
        vstd::arithmetic::div_mod::lemma_fundamental_div_mod_converse(b, len, q + 1, r - len);
    }
}

/// The range that is kept for an L2 block grows just enough to hold the L1 blocks that are noted,
/// and no other range changes.
pub proof fn noted_range_grows(
    cache: &mut L1RangeCache,
    l2_safe: u64,
    l1_first: u64,
    l1_last: u64,
    other: u64,
)
    requires
        call_ensures(L1RangeCache::record, (cache, l2_safe, l1_first, l1_last), ()),
    ensures
        final(cache)@.contains_key(l2_safe),
        final(cache)@[l2_safe].0 <= l1_first,
        final(cache)@[l2_safe].1 >= l1_last,
        old(cache)@.contains_key(l2_safe) ==> final(cache)@[l2_safe].0 <= old(cache)@[l2_safe].0
            && final(cache)@[l2_safe].1 >= old(cache)@[l2_safe].1,
        final(cache)@[l2_safe].0 == l1_first || {
            &&& old(cache)@.contains_key(l2_safe)
            &&& final(cache)@[l2_safe].0 == old(cache)@[l2_safe].0
        },
        final(cache)@[l2_safe].1 == l1_last || {
            &&& old(cache)@.contains_key(l2_safe)
            &&& final(cache)@[l2_safe].1 == old(cache)@[l2_safe].1
        },
        other != l2_safe ==> {
            &&& final(cache)@.contains_key(other) <==> old(cache)@.contains_key(other)
            &&& old(cache)@.contains_key(other) ==> final(cache)@[other] == old(cache)@[other]
        },
{
}

/// The neighbours of a block in the cache: nothing is cached between them and it.
pub proof fn neighbours_are_next(
    cache: &L1RangeCache,
    bound: u64,
    below: Option<(u64, (u64, u64))>,
    from: Option<(u64, (u64, u64))>,
    k: u64,
)
    requires
        call_ensures(L1RangeCache::last_below, (cache, bound), below),
        call_ensures(L1RangeCache::first_from, (cache, bound), from),
        cache@.contains_key(k),
    ensures
        k < bound ==> (below matches Some((b, range)) && k <= b < bound && cache@.contains_key(b)
            && range == cache@[b]),
        k >= bound ==> (from matches Some((f, range)) && bound <= f <= k && cache@.contains_key(f)
            && range == cache@[f]),
{
    match below {
        Some((b, _)) => {
            assert(l1_range_cache::is_last_below(cache@, bound, b));
        },
        None => {
            assert(l1_range_cache::has_none_below(cache@, bound));
        },
    }
    match from {
        Some((f, _)) => {
            assert(l1_range_cache::is_first_from(cache@, bound, f));
        },
        None => {
            assert(l1_range_cache::has_none_from(cache@, bound));
        },
    }
}

/// True answers keep what is cached true, and are themselves cached. Nothing that was known is
/// forgotten.
pub proof fn cached_answers_are_true(
    safe: spec_fn(u64) -> u64,
    client: &mut SafeDBClient,
    l1_block_numbers: &Vec<u64>,
    responses: &Vec<SafeHeadResponse>,
    i: int,
    l2: u64,
)
    requires
        call_ensures(SafeDBClient::cache_safe_heads, (client, l1_block_numbers, responses), ()),
        safe_head_laws::monotone(safe),
        safe_head_laws::faithful(safe, old(client).ranges()),
        responses@.len() == l1_block_numbers@.len(),
        forall|j: int|
            0 <= j < responses@.len() ==> safe_head_laws::truthful(
                safe,
                l1_block_numbers@[j],
                #[trigger] responses@[j],
            ),
        0 <= i < responses@.len(),
    ensures
        safe_head_laws::faithful(safe, final(client).ranges()),
        final(client).ranges().contains_key(safe(l1_block_numbers@[i])),
        final(client).ranges()[safe(l1_block_numbers@[i])].0 <= l1_block_numbers@[i],
        final(client).ranges()[safe(l1_block_numbers@[i])].1 >= l1_block_numbers@[i],
        old(client).ranges().contains_key(l2) ==> {
            &&& final(client).ranges().contains_key(l2)
            &&& final(client).ranges()[l2].0 <= old(client).ranges()[l2].0
            &&& final(client).ranges()[l2].1 >= old(client).ranges()[l2].1
        },
        final(client).hashes().contains_key(responses@[i].l1_block.number),
        final(client).batch() == old(client).batch(),
{
    let n = responses@.len();
    safe_head_laws::true_answers_keep_cache_faithful(
        safe,
        old(client).ranges(),
        l1_block_numbers@,
        responses@,
        n,
    );
    safe_head_laws::answers_are_cached(old(client).ranges(), l1_block_numbers@, responses@, n, i);
    assert(safe_head_laws::truthful(safe, l1_block_numbers@[i], responses@[i]));
    ranges_are_not_forgotten(old(client).ranges(), l1_block_numbers@, responses@, n, l2);
    hashes_are_noted(old(client).hashes(), responses@, n, i);
}

proof fn ranges_are_not_forgotten(
    m: Map<u64, (u64, u64)>,
    l1_block_numbers: Seq<u64>,
    responses: Seq<SafeHeadResponse>,
    n: nat,
    l2: u64,
)
    ensures
        m.contains_key(l2) ==> {
            let after = cl::recorded_all(m, l1_block_numbers, responses, n);
            &&& after.contains_key(l2)
            &&& after[l2].0 <= m[l2].0
            &&& after[l2].1 >= m[l2].1
        },
    decreases n,
{
    if n > 0 {
        ranges_are_not_forgotten(m, l1_block_numbers, responses, (n - 1) as nat, l2);
    }
}

proof fn hashes_are_noted(
    m: Map<u64, B256>,
    responses: Seq<SafeHeadResponse>,
    n: nat,
    i: int,
)
    requires
        0 <= i < n,
    ensures
        cl::hashes_after(m, responses, n).contains_key(responses[i].l1_block.number),
    decreases n,
{
    if i < n - 1 {
        hashes_are_noted(m, responses, (n - 1) as nat, i);
    }
}

/// A node says of each L1 block what its hash is.
pub open spec fn hashes_are_true(hash_of: spec_fn(u64) -> B256, m: Map<u64, B256>) -> bool {
    forall|n: u64| #[trigger] m.contains_key(n) ==> m[n] == hash_of(n)
}

/// True hashes are kept as they are.
pub proof fn cached_hashes_are_true(
    hash_of: spec_fn(u64) -> B256,
    client: &mut SafeDBClient,
    l1_block_numbers: &Vec<u64>,
    responses: &Vec<SafeHeadResponse>,
)
    requires
        call_ensures(SafeDBClient::cache_safe_heads, (client, l1_block_numbers, responses), ()),
        hashes_are_true(hash_of, old(client).hashes()),
        forall|j: int|
            0 <= j < responses@.len() ==> (#[trigger] responses@[j]).l1_block.hash == hash_of(
                responses@[j].l1_block.number,
            ),
    ensures
        hashes_are_true(hash_of, final(client).hashes()),
{
    noted_hashes_are_true(hash_of, old(client).hashes(), responses@, responses@.len());
}

proof fn noted_hashes_are_true(
    hash_of: spec_fn(u64) -> B256,
    m: Map<u64, B256>,
    responses: Seq<SafeHeadResponse>,
    n: nat,
)
    requires
        hashes_are_true(hash_of, m),
        n <= responses.len(),
        forall|j: int|
            0 <= j < responses.len() ==> (#[trigger] responses[j]).l1_block.hash == hash_of(
                responses[j].l1_block.number,
            ),
    ensures
        hashes_are_true(hash_of, cl::hashes_after(m, responses, n)),
    decreases n,
{
    if n > 0 {
        noted_hashes_are_true(hash_of, m, responses, (n - 1) as nat);
        assert(responses[n - 1].l1_block.hash == hash_of(responses[n - 1].l1_block.number));
    }
}

/// What the cache says of an L1 block is true. Otherwise the node is asked for this very block. It
/// is not asked if the safe head there is cached and nothing is cached between it and the hint.
pub proof fn known_safe_head_is_safe(
    safe: spec_fn(u64) -> u64,
    client: &SafeDBClient,
    l1: u64,
    hint: Option<u64>,
    lookup: SafeHeadLookup,
)
    requires
        call_ensures(SafeDBClient::l1_to_l2_safe, (client, l1, hint), lookup),
        safe_head_laws::monotone(safe),
        safe_head_laws::faithful(safe, client.ranges()),
    ensures
        lookup matches SafeHeadLookup::Known(l2_safe) ==> l2_safe == safe(l1) && hint is Some
            && hint->0 <= l2_safe,
        lookup matches SafeHeadLookup::Query(bn) ==> bn == l1,
        hint is Some && hint->0 <= safe(l1) && client.ranges().contains_key(safe(l1))
            && client.ranges()[safe(l1)].0 <= l1 <= client.ranges()[safe(l1)].1 && (forall|k: u64|
            hint->0 <= k < safe(l1) ==> !#[trigger] client.ranges().contains_key(k))
            ==> lookup is Known,
{
    if let SafeHeadLookup::Known(l2_safe) = lookup {
        safe_head_laws::known_safe_head_is_true(safe, client.ranges(), l2_safe, l1);
    } else if hint is Some && hint->0 <= safe(l1) && client.ranges().contains_key(safe(l1))
        && client.ranges()[safe(l1)].0 <= l1 <= client.ranges()[safe(l1)].1 && (forall|k: u64|
        hint->0 <= k < safe(l1) ==> !#[trigger] client.ranges().contains_key(k)) {
        assert(lookup == SafeHeadLookup::Query(l1));
        assert(l1_range_cache::is_first_from(client.ranges(), hint->0, safe(l1)));
    }
}

/// A round of a search that ends gives the first L1 block of the interval that makes the L2 block
/// safe, or the end of the interval if none does. It gives a block before the interval only if that
/// is known to be the first of all.
///
/// A round that does not end leaves an interval with the same answer, and asks about blocks of it,
/// all different, as many as a batch takes or all but the last.
pub proof fn search_round_is_true(
    safe: spec_fn(u64) -> u64,
    client: &SafeDBClient,
    l2: u64,
    start: u64,
    end: u64,
    round: SafeHeadSearch,
    l1: u64,
)
    requires
        call_ensures(SafeDBClient::l2_to_l1_safe_within_range, (client, l2, start, end), round),
        safe_head_laws::monotone(safe),
        safe_head_laws::faithful(safe, client.ranges()),
        start <= end,
    ensures
        round matches SafeHeadSearch::Found(found) ==> {
            &&& found <= end
            &&& forall|n: u64| start <= n < found ==> #[trigger] safe(n) < l2
            &&& found < end ==> l2 <= safe(found)
            &&& found < start ==> forall|n: u64| n < found ==> #[trigger] safe(n) < l2
        },
        round matches SafeHeadSearch::Query { start: s, end: e, l1_block_numbers } ==> {
            &&& start <= s < e <= end
            &&& forall|n: u64| start <= n < s ==> #[trigger] safe(n) < l2
            &&& e < end ==> l2 <= safe(e)
            &&& !client.ranges().contains_key(l2)
            &&& forall|i: int|
                0 <= i < l1_block_numbers@.len() ==> s <= #[trigger] l1_block_numbers@[i] < e
            &&& forall|i: int, j: int|
                0 <= i < j < l1_block_numbers@.len() ==> #[trigger] l1_block_numbers@[i]
                    < #[trigger] l1_block_numbers@[j]
            &&& l1_block_numbers@.len() == if e - s <= client.batch() {
                e - s
            } else {
                client.batch() as int
            }
        },
{
    let m = client.ranges();
    let new_start = cl::narrowed_start(m, l2, start, end);
    let new_end = cl::narrowed_end(m, l2, new_start as u64, end);
    safe_head_laws::narrowing_keeps_the_answer(safe, m, l2, start, end, l1);
    match round {
        SafeHeadSearch::Found(found) => {
            if m.contains_key(l2) {
                safe_head_laws::cached_block_is_answered(safe, m, l2);
            }
        },
        SafeHeadSearch::Query { start: s, end: e, l1_block_numbers } => {
            cl::query_points_are_within(s, e, client.batch());
            narrowed_bounds_are_true(safe, m, l2, start, end);
        },
    }
}

/// A shortened interval leaves out nothing that is safe, and ends where the block is safe.
pub(crate) proof fn narrowed_bounds_are_true(
    safe: spec_fn(u64) -> u64,
    m: Map<u64, (u64, u64)>,
    l2: u64,
    start: u64,
    end: u64,
)
    requires
        safe_head_laws::monotone(safe),
        safe_head_laws::faithful(safe, m),
        start <= end,
    ensures
        ({
            let new_start = cl::narrowed_start(m, l2, start, end);
            let new_end = cl::narrowed_end(m, l2, new_start as u64, end);
            &&& forall|n: u64| start <= n < new_start ==> #[trigger] safe(n) < l2
            &&& new_end < end ==> l2 <= safe(new_end as u64)
        }),
{
    let new_start = cl::narrowed_start(m, l2, start, end);
    let new_end = cl::narrowed_end(m, l2, new_start as u64, end);
    if exists|k: u64| l1_range_cache::is_last_below(m, l2, k) {
        let k = choose|k: u64| l1_range_cache::is_last_below(m, l2, k);
        assert(m.contains_key(k));
        assert forall|n: u64| start <= n < new_start implies #[trigger] safe(n) < l2 by {
            assert(safe(n) <= safe(m[k].1));
        }
    }
    if exists|k: u64| l1_range_cache::is_first_from(m, l2, k) {
        let k = choose|k: u64| l1_range_cache::is_first_from(m, l2, k);
        assert(m.contains_key(k));
        if new_end < end {
            assert(safe(m[k].0) <= safe(new_end as u64));
        }
    }
}

/// A round of true answers brings a search closer to its end: the next round ends it, or leaves a
/// shorter interval.
pub proof fn answered_round_makes_progress(
    safe: spec_fn(u64) -> u64,
    before: &SafeDBClient,
    caching: &mut SafeDBClient,
    after: &SafeDBClient,
    l2: u64,
    start: u64,
    end: u64,
    s: u64,
    e: u64,
    points: Vec<u64>,
    responses: &Vec<SafeHeadResponse>,
    next: SafeHeadSearch,
)
    requires
        safe_head_laws::monotone(safe),
        safe_head_laws::faithful(safe, before.ranges()),
        start <= end,
        before.batch() > 0,
        call_ensures(
            SafeDBClient::l2_to_l1_safe_within_range,
            (before, l2, start, end),
            SafeHeadSearch::Query { start: s, end: e, l1_block_numbers: points },
        ),
        *caching == *before,
        call_ensures(SafeDBClient::cache_safe_heads, (caching, &points, responses), ()),
        responses@.len() == points@.len(),
        forall|j: int|
            0 <= j < responses@.len() ==> safe_head_laws::truthful(
                safe,
                points@[j],
                #[trigger] responses@[j],
            ),
        *after == *final(caching),
        call_ensures(SafeDBClient::l2_to_l1_safe_within_range, (after, l2, s, e), next),
    ensures
        next matches SafeHeadSearch::Query { start: t, end: f, .. } ==> s <= t < f <= e && f - t < e
            - s,
{
    safe_head_laws::true_answers_make_progress(
        safe,
        before.ranges(),
        l2,
        s,
        e,
        before.batch(),
        responses@,
    );
}

/// The block that a search gives back makes the L2 block safe if the node answers truthfully, and
/// its hash is the known one. The search gives up only if the node does not say the block's hash, or
/// if the L2 block is not safe there.
pub proof fn search_result_makes_safe(
    safe: spec_fn(u64) -> u64,
    client: &SafeDBClient,
    l2: u64,
    search: L1SafeSearch,
    replies: &Vec<SafeHeadResponse>,
    result: Option<BlockNumHash>,
)
    requires
        call_ensures(
            SafeDBClient::l2_to_l1_safe,
            (client, l2, search, replies),
            L1SafeStep::Done(result),
        ),
        safe_head_laws::monotone(safe),
        safe_head_laws::faithful(safe, client.ranges()),
        search matches L1SafeSearch::Within { start, end } ==> start <= end
            || client.ranges().contains_key(l2),
        search matches L1SafeSearch::SafeAt { l1_safe, .. } ==> replies@.len() > 0
            && safe_head_laws::truthful(safe, l1_safe, replies@[0]),
    ensures
        result matches Some(found) ==> {
            &&& l2 <= safe(found.number)
            &&& match search {
                L1SafeSearch::SafeAt { l1_safe, hash } => found == (BlockNumHash {
                    number: l1_safe,
                    hash,
                }),
                L1SafeSearch::HashOf { l1_safe } => found.number == l1_safe
                    && client.hashes().contains_key(l1_safe) && found.hash
                    == client.hashes()[l1_safe],
                L1SafeSearch::Within { start, end } => found.number <= end
                    && client.hashes().contains_key(found.number) && found.hash
                    == client.hashes()[found.number],
            }
        },
        result is None ==> match search {
            L1SafeSearch::SafeAt { l1_safe, .. } => safe(l1_safe) < l2,
            L1SafeSearch::HashOf { l1_safe } => !client.hashes().contains_key(l1_safe),
            L1SafeSearch::Within { .. } => false,
        },
{
    if let L1SafeSearch::SafeAt { l1_safe, hash } = search {
        assert(replies[0] == replies@[0]);
        assert(safe_head_laws::truthful(safe, l1_safe, replies@[0]));
        assert(result == if replies[0].safe_head.number < l2 {
            None
        } else {
            Some(BlockNumHash { number: l1_safe, hash })
        });
    } else if result is Some {
        let found = result->0;
        let step = L1SafeStep::Done(result);
        match search {
            L1SafeSearch::Within { start, end } => {
                let new_start = cl::narrowed_start(client.ranges(), l2, start, end);
                let new_end = cl::narrowed_end(client.ranges(), l2, new_start as u64, end);
                let l1 = if client.ranges().contains_key(l2) {
                    cl::cached_answer(client.ranges(), l2, end)
                } else {
                    new_end as u64
                };
                assert(client.continues_from(l2, l1, step));
                assert(client.verifies(l2, l1, client.hashes()[l1], step));
            },
            L1SafeSearch::HashOf { l1_safe } => {
                assert(client.verifies(l2, l1_safe, client.hashes()[l1_safe], step));
            },
            _ => {},
        }
        let k = choose|k: u64|
            {
                &&& #[trigger] l1_range_cache::is_first_from(client.ranges(), l2, k)
                &&& client.ranges()[k].0 <= found.number <= client.ranges()[k].1
            };
        safe_head_laws::known_safe_head_is_true(safe, client.ranges(), k, found.number);
    }
}

/// What a search asks for next: blocks of a shorter interval, or the block in which the search has
/// ended, first for its hash and then for the safe head there.
pub proof fn search_asks_for_what_is_missing(
    client: &SafeDBClient,
    l2: u64,
    search: L1SafeSearch,
    replies: &Vec<SafeHeadResponse>,
    next: L1SafeSearch,
    l1_block_numbers: Vec<u64>,
)
    requires
        call_ensures(
            SafeDBClient::l2_to_l1_safe,
            (client, l2, search, replies),
            L1SafeStep::Query { next, l1_block_numbers },
        ),
        search matches L1SafeSearch::Within { start, end } ==> start <= end,
    ensures
        match next {
            L1SafeSearch::Within { start: s, end: e } => {
                &&& search matches L1SafeSearch::Within { start, end } && start <= s < e <= end
                &&& forall|i: int|
                    0 <= i < l1_block_numbers@.len() ==> s <= #[trigger] l1_block_numbers@[i] < e
            },
            L1SafeSearch::HashOf { l1_safe } => {
                &&& search matches L1SafeSearch::Within { start, end } && l1_safe <= end
                &&& !client.hashes().contains_key(l1_safe)
                &&& l1_block_numbers@ == seq![l1_safe]
            },
            L1SafeSearch::SafeAt { l1_safe, hash } => {
                &&& client.hashes().contains_key(l1_safe) && client.hashes()[l1_safe] == hash
                &&& l1_block_numbers@ == seq![l1_safe]
                &&& search matches L1SafeSearch::HashOf { l1_safe: l1 } ==> l1 == l1_safe
                &&& !(search is SafeAt)
            },
        },
{
    if let L1SafeSearch::Within { start, end } = search {
        let m = client.ranges();
        let new_start = cl::narrowed_start(m, l2, start, end);
        let new_end = cl::narrowed_end(m, l2, new_start as u64, end);
        assert(start <= new_start <= new_end <= end);
        cl::query_points_are_within(new_start as u64, new_end as u64, client.batch());
    }
}

/// A search runs from the L1 block that the L2 block was derived from to the block that is asked
/// for. The latest block is the one at which the node's derivation stands, and there is no search up
/// to the earliest block.
pub proof fn search_runs_from_origin(
    resp: &OutputResponse,
    tag: BlockNumberOrTag,
    range: Option<(u64, u64)>,
)
    requires
        call_ensures(SafeDBClient::l1_search_range, (resp, tag), range),
    ensures
        range is None <==> tag is Earliest,
        range matches Some((start, end)) ==> {
            &&& start == resp.block_ref.l1_origin.number
            &&& tag is Latest ==> end == resp.sync_status.current_l1.number
            &&& tag is Finalized ==> end == resp.sync_status.finalized_l1.number
            &&& tag is Safe ==> end == resp.sync_status.safe_l1.number
            &&& tag is Pending ==> end == resp.sync_status.head_l1.number
            &&& tag matches BlockNumberOrTag::Number(bn) ==> end == bn
        },
{
}

/// The search without a fixed interval gives true answers too: what it finds is the first L1 block
/// from `start` on that makes the L2 block safe, or the end of the interval if none before it does.
pub proof fn open_search_round_is_true(
    safe: spec_fn(u64) -> u64,
    client: &cl_rpc_utils::SafeDBClient,
    l2: u64,
    start: u64,
    end: u64,
    round: SafeHeadSearch,
)
    requires
        call_ensures(cl_rpc_utils::SafeDBClient::l2_to_l1_safe, (client, l2, start, end), round),
        client.wf(),
        safe_head_laws::monotone(safe),
        safe_head_laws::faithful(safe, client.ranges()),
        start <= end,
    ensures
        round matches SafeHeadSearch::Found(found) ==> {
            &&& forall|n: u64| start <= n < found ==> #[trigger] safe(n) < l2
            &&& found < end || client.ranges().contains_key(l2) ==> l2 <= safe(found)
            &&& found < start ==> forall|n: u64| n < found ==> #[trigger] safe(n) < l2
        },
        round matches SafeHeadSearch::Query { start: s, end: e, l1_block_numbers } ==> {
            &&& start <= s < e <= end
            &&& forall|n: u64| start <= n < s ==> #[trigger] safe(n) < l2
            &&& e < end ==> l2 <= safe(e)
            &&& forall|i: int|
                0 <= i < l1_block_numbers@.len() ==> s <= #[trigger] l1_block_numbers@[i] < e
        },
{
    let m = client.ranges();
    let new_start = cl_rpc_utils::raised_start(m, l2, start);
    let new_end = cl_rpc_utils::lowered_end(m, l2, end);
    if m.contains_key(l2) {
        safe_head_laws::cached_block_is_answered(safe, m, l2);
    } else {
        if exists|k: u64| l1_range_cache::is_last_below(m, l2, k) {
            let k = choose|k: u64| l1_range_cache::is_last_below(m, l2, k);
            assert(m.contains_key(k));
            assert forall|n: u64| start <= n < new_start implies #[trigger] safe(n) < l2 by {
                assert(safe(n) <= safe(m[k].1));
            }
        }
        if exists|k: u64| l1_range_cache::is_first_from(m, l2, k) {
            let k = choose|k: u64| l1_range_cache::is_first_from(m, l2, k);
            assert(m.contains_key(k));
        }
        if let SafeHeadSearch::Query { start: s, end: e, .. } = round {
            cl::query_points_are_within(s, e, client.batch());
        }
    }
}

/// Such a search caches true answers too, and what it says of an L1 block is true.
pub proof fn open_search_caches_true_answers(
    safe: spec_fn(u64) -> u64,
    client: &mut cl_rpc_utils::SafeDBClient,
    cached: &cl_rpc_utils::SafeDBClient,
    l1_block_numbers: &Vec<u64>,
    responses: &Vec<SafeHeadResponse>,
    l1: u64,
    hint: Option<u64>,
    lookup: SafeHeadLookup,
)
    requires
        call_ensures(
            cl_rpc_utils::SafeDBClient::cache_safe_heads,
            (client, l1_block_numbers, responses),
            (),
        ),
        safe_head_laws::monotone(safe),
        safe_head_laws::faithful(safe, old(client).ranges()),
        responses@.len() == l1_block_numbers@.len(),
        forall|j: int|
            0 <= j < responses@.len() ==> safe_head_laws::truthful(
                safe,
                l1_block_numbers@[j],
                #[trigger] responses@[j],
            ),
        *cached == *final(client),
        call_ensures(cl_rpc_utils::SafeDBClient::l1_to_l2_safe, (cached, l1, hint), lookup),
    ensures
        safe_head_laws::faithful(safe, cached.ranges()),
        forall|i: int|
            0 <= i < responses@.len() ==> cached.ranges().contains_key(
                (#[trigger] responses@[i]).safe_head.number,
            ),
        lookup matches SafeHeadLookup::Known(l2_safe) ==> l2_safe == safe(l1),
        lookup matches SafeHeadLookup::Query(bn) ==> bn == l1,
{
    let n = responses@.len();
    safe_head_laws::true_answers_keep_cache_faithful(
        safe,
        old(client).ranges(),
        l1_block_numbers@,
        responses@,
        n,
    );
    assert forall|i: int| 0 <= i < n implies cached.ranges().contains_key(
        (#[trigger] responses@[i]).safe_head.number,
    ) by {
        safe_head_laws::answers_are_cached(
            old(client).ranges(),
            l1_block_numbers@,
            responses@,
            n,
            i,
        );
    }
    if let SafeHeadLookup::Known(l2_safe) = lookup {
        safe_head_laws::known_safe_head_is_true(safe, cached.ranges(), l2_safe, l1);
    }
}

/// A header is the one that the node's bytes decode to. Without bytes, or with bytes that are no
/// header, there is none; a block that the node does not know is an error.
pub proof fn header_is_decoded_from_reply(
    raw: Option<Vec<u8>>,
    header: Option<Header>,
    block: Option<Header>,
    r: Result<Header, HeaderError>,
)
    requires
        call_ensures(header_from_raw, (raw,), header),
        call_ensures(header_from_block, (block,), r),
    ensures
        header matches Some(h) ==> raw is Some && el::decoded_header(raw->0@) == Some(h@),
        raw is Some && el::decoded_header(raw->0@) is Some ==> header is Some,
        r is Ok <==> block is Some,
        r matches Ok(h) ==> block == Some(h),
        r matches Err(e) ==> e == HeaderError::NullResp,
{
}

} // verus!
