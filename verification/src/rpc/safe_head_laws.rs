//! What a search for safe heads finds when the rollup node answers truthfully.
//!
//! A node is described by a function `safe` from L1 blocks to L2 blocks: the safe head at that L1
//! block.

use vstd::prelude::*;

use crate::common::blocks::BlockNumHash;
use crate::common::fixed_bytes::B256;
use crate::rpc::cl;
use crate::rpc::cl::L1SafeStep;
use crate::rpc::cl::SafeDBClient;
use crate::rpc::cl::SafeHeadResponse;
use crate::rpc::l1_range_cache;

verus! {

/// The safe head never goes back.
pub open spec fn monotone(safe: spec_fn(u64) -> u64) -> bool {
    forall|a: u64, b: u64| a <= b ==> #[trigger] safe(a) <= #[trigger] safe(b)
}

/// `first` is the first L1 block at which `l2` is the safe head.
pub open spec fn reached_at(safe: spec_fn(u64) -> u64, l2: u64, first: u64) -> bool {
    &&& safe(first) == l2
    &&& forall|n: u64| n < first ==> #[trigger] safe(n) < l2
}

/// A true answer to the question which L2 block is safe at `l1`: the safe head, and the L1 block at
/// which it was reached.
pub open spec fn truthful(safe: spec_fn(u64) -> u64, l1: u64, resp: SafeHeadResponse) -> bool {
    &&& resp.safe_head.number == safe(l1)
    &&& resp.l1_block.number <= l1
    &&& reached_at(safe, safe(l1), resp.l1_block.number)
}

/// Every cached range starts where its L2 block became the safe head, and ends where it still is.
pub open spec fn faithful(safe: spec_fn(u64) -> u64, m: Map<u64, (u64, u64)>) -> bool {
    forall|l2: u64| #[trigger]
        m.contains_key(l2) ==> {
            &&& m[l2].0 <= m[l2].1
            &&& reached_at(safe, l2, m[l2].0)
            &&& safe(m[l2].1) == l2
        }
}

/// `l1` is the first L1 block of `start..end` that makes `l2` safe, or `end` if none does.
pub open spec fn first_within(
    safe: spec_fn(u64) -> u64,
    l2: u64,
    start: u64,
    end: u64,
    l1: u64,
) -> bool {
    &&& start <= l1 <= end
    &&& forall|n: u64| start <= n < l1 ==> #[trigger] safe(n) < l2
    &&& l1 < end ==> l2 <= safe(l1)
}

/// True answers keep the cache faithful.
pub proof fn true_answers_keep_cache_faithful(
    safe: spec_fn(u64) -> u64,
    m: Map<u64, (u64, u64)>,
    l1_block_numbers: Seq<u64>,
    responses: Seq<SafeHeadResponse>,
    n: nat,
)
    requires
        monotone(safe),
        faithful(safe, m),
        n <= l1_block_numbers.len(),
        n <= responses.len(),
        forall|i: int|
            0 <= i < n ==> truthful(safe, l1_block_numbers[i], #[trigger] responses[i]),
    ensures
        faithful(safe, cl::recorded_all(m, l1_block_numbers, responses, n)),
    decreases n,
{
    if n > 0 {
        let i = n - 1;
        true_answers_keep_cache_faithful(safe, m, l1_block_numbers, responses, i as nat);
        assert(truthful(safe, l1_block_numbers[i], responses[i]));
    }
}

/// Every true answer is found in the cache afterwards: the range of its L2 block holds the L1 block
/// that was asked for.
pub(crate) proof fn answers_are_cached(
    m: Map<u64, (u64, u64)>,
    l1_block_numbers: Seq<u64>,
    responses: Seq<SafeHeadResponse>,
    n: nat,
    i: int,
)
    requires
        0 <= i < n,
    ensures
        ({
            let after = cl::recorded_all(m, l1_block_numbers, responses, n);
            let l2 = responses[i].safe_head.number;
            &&& after.contains_key(l2)
            &&& after[l2].0 <= responses[i].l1_block.number
            &&& l1_block_numbers[i] <= after[l2].1
        }),
    decreases n,
{
    if i < n - 1 {
        answers_are_cached(m, l1_block_numbers, responses, (n - 1) as nat, i);
    }
}

/// A cached answer is the true one: an L1 block inside the range of a cached L2 block has that
/// block as its safe head.
pub proof fn known_safe_head_is_true(
    safe: spec_fn(u64) -> u64,
    m: Map<u64, (u64, u64)>,
    l2_safe: u64,
    l1: u64,
)
    requires
        monotone(safe),
        faithful(safe, m),
        m.contains_key(l2_safe),
        m[l2_safe].0 <= l1 <= m[l2_safe].1,
    ensures
        safe(l1) == l2_safe,
{
}

/// The range of a cached L2 block starts with the first L1 block of all that makes it safe.
pub proof fn cached_block_is_answered(
    safe: spec_fn(u64) -> u64,
    m: Map<u64, (u64, u64)>,
    l2: u64,
)
    requires
        faithful(safe, m),
        m.contains_key(l2),
    ensures
        first_within(safe, l2, 0, u64::MAX, m[l2].0),
        safe(m[l2].0) == l2,
{
}

/// Shortening the search interval by what is cached does not change the answer. In particular, an
/// interval of one block that is left over is the answer.
pub proof fn narrowing_keeps_the_answer(
    safe: spec_fn(u64) -> u64,
    m: Map<u64, (u64, u64)>,
    l2: u64,
    start: u64,
    end: u64,
    l1: u64,
)
    requires
        monotone(safe),
        faithful(safe, m),
        start <= end,
    ensures
        ({
            let new_start = cl::narrowed_start(m, l2, start, end);
            let new_end = cl::narrowed_end(m, l2, new_start as u64, end);
            &&& start <= new_start <= new_end <= end
            &&& first_within(safe, l2, new_start as u64, new_end as u64, l1) <==> first_within(
                safe,
                l2,
                start,
                end,
                l1,
            )
            &&& new_start == new_end ==> first_within(safe, l2, start, end, new_end as u64)
        }),
{
    let new_start = cl::narrowed_start(m, l2, start, end);
    if exists|k: u64| l1_range_cache::is_last_below(m, l2, k) {
        let k = choose|k: u64| l1_range_cache::is_last_below(m, l2, k);
        assert(m.contains_key(k));
        assert forall|n: u64| start <= n < new_start implies #[trigger] safe(n) < l2 by {
            assert(safe(n) <= safe(m[k].1));
        }
    }
    let new_end = cl::narrowed_end(m, l2, new_start as u64, end);
    if exists|k: u64| l1_range_cache::is_first_from(m, l2, k) {
        let k = choose|k: u64| l1_range_cache::is_first_from(m, l2, k);
        assert(m.contains_key(k));
        if new_end < end {
            assert(safe(m[k].0) <= safe(new_end as u64));
        }
    }
}

/// Below a bound above some key there is a greatest key.
proof fn last_below_exists(m: Map<u64, (u64, u64)>, bound: u64, key: u64)
    requires
        m.contains_key(key),
        key < bound,
    ensures
        exists|k: u64| l1_range_cache::is_last_below(m, bound, k),
    decreases bound - key,
{
    if !l1_range_cache::is_last_below(m, bound, key) {
        let k = choose|k: u64| #[trigger] m.contains_key(k) && k < bound && k > key;
        last_below_exists(m, bound, k);
    }
}

/// From a bound that some key reaches on there is a least key.
proof fn first_from_exists(m: Map<u64, (u64, u64)>, bound: u64, key: u64)
    requires
        m.contains_key(key),
        bound <= key,
    ensures
        exists|k: u64| l1_range_cache::is_first_from(m, bound, k),
    decreases key - bound,
{
    if !l1_range_cache::is_first_from(m, bound, key) {
        let k = choose|k: u64| #[trigger] m.contains_key(k) && bound <= k && k < key;
        first_from_exists(m, bound, k);
    }
}

/// A round of true answers either brings the wanted L2 block into the cache or makes the search
/// interval shorter. So a search ends, unless no question may be asked at all.
pub proof fn true_answers_make_progress(
    safe: spec_fn(u64) -> u64,
    m: Map<u64, (u64, u64)>,
    l2: u64,
    start: u64,
    end: u64,
    batch_size: usize,
    responses: Seq<SafeHeadResponse>,
)
    requires
        monotone(safe),
        faithful(safe, m),
        start < end,
        batch_size > 0,
        responses.len() == cl::query_points(start, end, batch_size).len(),
        forall|i: int|
            0 <= i < responses.len() ==> truthful(
                safe,
                cl::query_points(start, end, batch_size)[i],
                #[trigger] responses[i],
            ),
    ensures
        ({
            let after = cl::recorded_all(
                m,
                cl::query_points(start, end, batch_size),
                responses,
                responses.len(),
            );
            let new_start = cl::narrowed_start(after, l2, start, end);
            let new_end = cl::narrowed_end(after, l2, new_start as u64, end);
            after.contains_key(l2) || new_end - new_start < end - start
        }),
{
    let points = cl::query_points(start, end, batch_size);
    let after = cl::recorded_all(m, points, responses, responses.len());
    let new_start = cl::narrowed_start(after, l2, start, end);
    let new_end = cl::narrowed_end(after, l2, new_start as u64, end);
    cl::query_points_are_within(start, end, batch_size);
    true_answers_keep_cache_faithful(safe, m, points, responses, responses.len());
    answers_are_cached(m, points, responses, responses.len(), 0);
    let q = points[0];
    assert(truthful(safe, q, responses[0]));
    narrowing_keeps_the_answer(safe, after, l2, start, end, start);
    if safe(q) < l2 {
        last_below_exists(after, l2, safe(q));
        let k = choose|k: u64| l1_range_cache::is_last_below(after, l2, k);
        assert(after.contains_key(k) && after.contains_key(safe(q)));
        if after[k].1 < q {
            assert(safe(after[k].1) <= safe(q));
        }
        assert(new_start > start);
    } else if safe(q) > l2 {
        first_from_exists(after, l2, safe(q));
        let k = choose|k: u64| l1_range_cache::is_first_from(after, l2, k);
        assert(after.contains_key(k) && after.contains_key(safe(q)));
        if after[k].0 > q {
            assert(safe(q) <= safe(after[k].0));
        }
        assert(new_end < end || new_start == new_end);
    }
}

/// A round of a search: what is cached and the interval when it starts, and the answers to its
/// questions.
pub struct Round {
    pub ranges: Map<u64, (u64, u64)>,
    pub start: u64,
    pub end: u64,
    pub responses: Seq<SafeHeadResponse>,
}

impl Round {
    /// The start of the interval once it was shortened.
    pub open spec fn new_start(self, l2: u64) -> u64 {
        cl::narrowed_start(self.ranges, l2, self.start, self.end) as u64
    }

    /// The end of the interval once it was shortened.
    pub open spec fn new_end(self, l2: u64) -> u64 {
        cl::narrowed_end(self.ranges, l2, self.new_start(l2), self.end) as u64
    }

    /// The search does not end with this round, and `next` is the round that follows true answers
    /// to its questions.
    pub open spec fn leads_to(
        self,
        safe: spec_fn(u64) -> u64,
        l2: u64,
        batch_size: usize,
        next: Round,
    ) -> bool {
        let points = cl::query_points(self.new_start(l2), self.new_end(l2), batch_size);
        &&& !self.ranges.contains_key(l2)
        &&& self.new_start(l2) < self.new_end(l2)
        &&& self.responses.len() == points.len()
        &&& forall|i: int|
            0 <= i < points.len() ==> truthful(safe, points[i], #[trigger] self.responses[i])
        &&& next.start == self.new_start(l2)
        &&& next.end == self.new_end(l2)
        &&& next.ranges == cl::recorded_all(
            self.ranges,
            points,
            self.responses,
            self.responses.len(),
        )
    }

    /// The search ends with this round, in `found`.
    pub open spec fn ends_in(self, l2: u64, found: u64) -> bool {
        if self.ranges.contains_key(l2) {
            found == cl::cached_answer(self.ranges, l2, self.end)
        } else {
            self.new_start(l2) == self.new_end(l2) && found == self.new_end(l2)
        }
    }
}

/// The rounds of a search, one after the other.
pub open spec fn are_rounds(
    safe: spec_fn(u64) -> u64,
    l2: u64,
    batch_size: usize,
    rounds: Seq<Round>,
) -> bool {
    forall|i: int, j: int|
        #![trigger rounds[i], rounds[j]]
        0 <= i && j == i + 1 && j < rounds.len() ==> rounds[i].leads_to(
            safe,
            l2,
            batch_size,
            rounds[j],
        )
}

proof fn rounds_keep_cache_faithful(
    safe: spec_fn(u64) -> u64,
    l2: u64,
    batch_size: usize,
    round: Round,
    next: Round,
)
    requires
        monotone(safe),
        faithful(safe, round.ranges),
        round.start <= round.end,
        round.leads_to(safe, l2, batch_size, next),
    ensures
        faithful(safe, next.ranges),
        round.start <= next.start <= next.end <= round.end,
{
    let points = cl::query_points(round.new_start(l2), round.new_end(l2), batch_size);
    true_answers_keep_cache_faithful(
        safe,
        round.ranges,
        points,
        round.responses,
        round.responses.len(),
    );
    narrowing_keeps_the_answer(safe, round.ranges, l2, round.start, round.end, round.start);
}

/// A search among a node's true answers ends in the first L1 block of its interval that makes the L2
/// block safe, or in the interval's end if there is none. It never ends after the interval. It ends
/// before the interval only if the L2 block is itself a safe head that is cached, and then in the
/// first L1 block of all that makes it safe.
pub proof fn search_finds_first_safe_block(
    safe: spec_fn(u64) -> u64,
    l2: u64,
    batch_size: usize,
    rounds: Seq<Round>,
    found: u64,
)
    requires
        monotone(safe),
        rounds.len() > 0,
        faithful(safe, rounds[0].ranges),
        rounds[0].start <= rounds[0].end,
        are_rounds(safe, l2, batch_size, rounds),
        rounds.last().ends_in(l2, found),
    ensures
        found <= rounds[0].end,
        rounds[0].start <= found ==> first_within(
            safe,
            l2,
            rounds[0].start,
            rounds[0].end,
            found,
        ),
        found < rounds[0].start ==> rounds.last().ranges.contains_key(l2) && first_within(
            safe,
            l2,
            0,
            u64::MAX,
            found,
        ),
    decreases rounds.len(),
{
    let round = rounds[0];
    narrowing_keeps_the_answer(safe, round.ranges, l2, round.start, round.end, found);
    if rounds.len() == 1 {
        if round.ranges.contains_key(l2) {
            cached_block_is_answered(safe, round.ranges, l2);
        }
    } else {
        let next = rounds[1];
        rounds_keep_cache_faithful(safe, l2, batch_size, round, next);
        let rest = rounds.skip(1);
        assert(are_rounds(safe, l2, batch_size, rest)) by {
            assert forall|i: int, j: int|
                #![trigger rest[i], rest[j]]
                0 <= i && j == i + 1 && j < rest.len() implies rest[i].leads_to(
                safe,
                l2,
                batch_size,
                rest[j],
            ) by {
                assert(rest[i] == rounds[i + 1] && rest[j] == rounds[j + 1]);
            }
        }
        assert(rest.last() == rounds.last());
        search_finds_first_safe_block(safe, l2, batch_size, rest, found);
    }
}

/// A search among true answers takes no more rounds than there are L1 blocks in its interval, and
/// two more.
pub proof fn search_ends(
    safe: spec_fn(u64) -> u64,
    l2: u64,
    batch_size: usize,
    rounds: Seq<Round>,
)
    requires
        monotone(safe),
        batch_size > 0,
        rounds.len() > 0,
        faithful(safe, rounds[0].ranges),
        rounds[0].start <= rounds[0].end,
        are_rounds(safe, l2, batch_size, rounds),
    ensures
        rounds.len() <= rounds[0].end - rounds[0].start + 2,
    decreases rounds.len(),
{
    if rounds.len() > 1 {
        let (round, next) = (rounds[0], rounds[1]);
        assert(round.leads_to(safe, l2, batch_size, next));
        rounds_keep_cache_faithful(safe, l2, batch_size, round, next);
        shrinking_rounds(safe, l2, batch_size, rounds);
    }
}

/// From the second round on, each round shortens the interval.
proof fn shrinking_rounds(
    safe: spec_fn(u64) -> u64,
    l2: u64,
    batch_size: usize,
    rounds: Seq<Round>,
)
    requires
        monotone(safe),
        batch_size > 0,
        rounds.len() > 1,
        faithful(safe, rounds[0].ranges),
        rounds[0].start <= rounds[0].end,
        are_rounds(safe, l2, batch_size, rounds),
    ensures
        rounds.len() - 2 <= rounds[1].end - rounds[1].start <= rounds[0].end - rounds[0].start,
    decreases rounds.len(),
{
    let (round, next) = (rounds[0], rounds[1]);
    assert(round.leads_to(safe, l2, batch_size, next));
    rounds_keep_cache_faithful(safe, l2, batch_size, round, next);
    if rounds.len() > 2 {
        let rest = rounds.skip(1);
        assert(are_rounds(safe, l2, batch_size, rest)) by {
            assert forall|i: int, j: int|
                #![trigger rest[i], rest[j]]
                0 <= i && j == i + 1 && j < rest.len() implies rest[i].leads_to(
                safe,
                l2,
                batch_size,
                rest[j],
            ) by {
                assert(rest[i] == rounds[i + 1] && rest[j] == rounds[j + 1]);
            }
        }
        shrinking_rounds(safe, l2, batch_size, rest);
        true_answers_make_progress(
            safe,
            round.ranges,
            l2,
            next.start,
            next.end,
            batch_size,
            round.responses,
        );
        assert(rest[0] == next && rest[1] == rounds[2]);
        assert(next.leads_to(safe, l2, batch_size, rounds[2]));
    }
}

/// The L1 block that a search returns makes the L2 block safe, whether the last check was made
/// against the cache or against a true answer of the node.
pub proof fn confirmed_block_makes_safe(
    safe: spec_fn(u64) -> u64,
    client: SafeDBClient,
    l2: u64,
    l1_safe: u64,
    hash: B256,
    found: BlockNumHash,
    reply: SafeHeadResponse,
)
    requires
        monotone(safe),
        faithful(safe, client.ranges()),
        truthful(safe, l1_safe, reply),
        client.verifies(l2, l1_safe, hash, L1SafeStep::Done(Some(found))) || (
        reply.safe_head.number >= l2 && found == (BlockNumHash { number: l1_safe, hash })),
    ensures
        found.number == l1_safe,
        l2 <= safe(found.number),
{
    if client.verifies(l2, l1_safe, hash, L1SafeStep::Done(Some(found))) {
        let k = choose|k: u64|
            {
                &&& #[trigger] l1_range_cache::is_first_from(client.ranges(), l2, k)
                &&& client.ranges()[k].0 <= l1_safe <= client.ranges()[k].1
            };
        known_safe_head_is_true(safe, client.ranges(), k, l1_safe);
    }
}

/// A block that is safe at the end of the search interval is safe at the L1 block that is found for
/// it.
pub proof fn found_block_covers_target(
    safe: spec_fn(u64) -> u64,
    target: u64,
    start: u64,
    end: u64,
    l1_safe: u64,
)
    requires
        first_within(safe, target, start, end, l1_safe),
        target <= safe(end),
    ensures
        target <= safe(l1_safe),
{
}

} // verus!
