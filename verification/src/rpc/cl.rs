//! The consensus layer: which L2 block is safe at which L1 block.

use std::collections::HashMap;

use vstd::prelude::*;

use crate::common::blocks::BlockInfo;
use crate::common::blocks::BlockNumHash;
use crate::common::blocks::BlockNumberOrTag;
use crate::common::blocks::L2BlockInfo;
use crate::common::fixed_bytes::B256;
use crate::rpc::l1_range_cache;
use crate::rpc::l1_range_cache::L1RangeCache;
use crate::rpc::spread;
use crate::rpc::spread::bresenham;

verus! {

/// The L1 blocks that a rollup node reports on its own progress.
#[derive(Clone, Copy, Debug, PartialEq, Eq)]
pub struct SyncStatus {
    /// The L1 block at which derivation is last idle.
    pub current_l1: BlockInfo,
    pub head_l1: BlockInfo,
    pub safe_l1: BlockInfo,
    pub finalized_l1: BlockInfo,
}

/// The output of an L2 block, with the state of the node that reports it.
#[derive(Clone, Copy, Debug, PartialEq, Eq)]
pub struct OutputResponse {
    /// The output version.
    pub version: B256,
    /// The output root hash.
    pub output_root: B256,
    /// A reference to the L2 block.
    pub block_ref: L2BlockInfo,
    /// The withdrawal storage root.
    pub withdrawal_storage_root: B256,
    /// The state root.
    pub state_root: B256,
    /// The status of the node sync.
    pub sync_status: SyncStatus,
}

/// The safe head response.
#[derive(Clone, Copy, Debug, PartialEq, Eq)]
pub struct SafeHeadResponse {
    /// The L1 block at which the safe head was reached.
    pub l1_block: BlockNumHash,
    /// The safe head.
    pub safe_head: BlockNumHash,
}

/// The next thing to do in a search for the first L1 block that makes an L2 block safe.
#[derive(Debug, PartialEq, Eq)]
pub enum SafeHeadSearch {
    /// The search is over: this is the L1 block.
    Found(u64),
    /// The answer lies in `start..=end`. The safe heads at `l1_block_numbers` are to be asked for
    /// and cached, then the search goes on with `start` and `end`.
    Query { start: u64, end: u64, l1_block_numbers: Vec<u64> },
}

/// Where the safe head at an L1 block comes from.
#[derive(Clone, Copy, Debug, PartialEq, Eq)]
pub enum SafeHeadLookup {
    /// The cache knows it.
    Known(u64),
    /// The node is to be asked for the safe head at this L1 block.
    Query(u64),
}

/// How far a search for the L1 block that makes an L2 block safe has come.
#[derive(Clone, Copy, Debug, PartialEq, Eq)]
pub enum L1SafeSearch {
    /// The L1 block lies in `start..=end`.
    Within { start: u64, end: u64 },
    /// The L1 block is `l1_safe`; its hash has been asked for.
    HashOf { l1_safe: u64 },
    /// The L1 block is `l1_safe`; the safe head there has been asked for.
    SafeAt { l1_safe: u64, hash: B256 },
}

/// The next thing to do in such a search.
#[derive(Debug, PartialEq, Eq)]
pub enum L1SafeStep {
    /// The safe heads at `l1_block_numbers` are to be asked for and cached, then the search goes on
    /// from `next`.
    Query { next: L1SafeSearch, l1_block_numbers: Vec<u64> },
    /// The search is over.
    Done(Option<BlockNumHash>),
}

/// `x`, or the bound of `lo..=hi` that is next to it.
pub open spec fn clamped(x: int, lo: int, hi: int) -> int {
    if x < lo {
        lo
    } else if x > hi {
        hi
    } else {
        x
    }
}

/// The start of a search interval once the greatest cached L2 block below `l2` was used.
pub open spec fn narrowed_start(m: Map<u64, (u64, u64)>, l2: u64, start: u64, end: u64) -> int {
    if exists|k: u64| l1_range_cache::is_last_below(m, l2, k) {
        let k = choose|k: u64| l1_range_cache::is_last_below(m, l2, k);
        clamped(m[k].1 + 1, start as int, end as int)
    } else {
        start as int
    }
}

/// The end of a search interval once the least cached L2 block from `l2` on was used.
pub open spec fn narrowed_end(m: Map<u64, (u64, u64)>, l2: u64, start: u64, end: u64) -> int {
    if exists|k: u64| l1_range_cache::is_first_from(m, l2, k) {
        let k = choose|k: u64| l1_range_cache::is_first_from(m, l2, k);
        clamped(m[k].0 as int, start as int, end as int)
    } else {
        end as int
    }
}

/// Where a search ends whose L2 block is itself cached: in its first L1 block, but not after `end`.
pub open spec fn cached_answer(m: Map<u64, (u64, u64)>, l2: u64, end: u64) -> u64 {
    if m[l2].0 < end {
        m[l2].0
    } else {
        end
    }
}

/// The L1 blocks that are asked for when the answer lies in `start..=end`: all of `start..end` if
/// one batch takes them, else `batch_size` of them that leave gaps of even size.
pub open spec fn query_points(start: u64, end: u64, batch_size: usize) -> Seq<u64> {
    if end - start <= batch_size {
        Seq::new((end - start) as nat, |i: int| (start + i) as u64)
    } else {
        Seq::new(
            batch_size as nat,
            |i: int|
                (start + i + spread::share(end - start - batch_size, batch_size + 1, i + 1)) as u64,
        )
    }
}

/// The prefix sums of an even distribution grow from 0 to the sum.
proof fn share_bounds(sum: int, len: int, i: int, j: int)
    requires
        0 <= sum,
        0 < len,
        0 <= i <= j <= len,
    ensures
        0 <= spread::share(sum, len, i) <= spread::share(sum, len, j) <= sum,
{
    assert(0 <= i * sum <= j * sum <= len * sum) by (nonlinear_arith)
        requires
            0 <= sum,
            0 <= i <= j <= len,
    ;
    vstd::arithmetic::div_mod::lemma_div_is_ordered(0, i * sum, len);
    vstd::arithmetic::div_mod::lemma_div_is_ordered(i * sum, j * sum, len);
    vstd::arithmetic::div_mod::lemma_div_is_ordered(j * sum, len * sum, len);
    vstd::arithmetic::div_mod::lemma_div_multiples_vanish(sum, len);
    vstd::arithmetic::div_mod::lemma_div_basics(len);
}

/// The L1 blocks that are asked for lie in the interval, one after the other.
pub proof fn query_points_are_within(start: u64, end: u64, batch_size: usize)
    requires
        start <= end,
    ensures
        forall|i: int|
            0 <= i < query_points(start, end, batch_size).len() ==> start <= #[trigger] query_points(
                start,
                end,
                batch_size,
            )[i] < end,
        forall|i: int, j: int|
            0 <= i < j < query_points(start, end, batch_size).len() ==> #[trigger] query_points(
                start,
                end,
                batch_size,
            )[i] < #[trigger] query_points(start, end, batch_size)[j],
        start < end && batch_size > 0 ==> query_points(start, end, batch_size).len() > 0,
{
    let q = query_points(start, end, batch_size);
    if end - start > batch_size {
        let sum = end - start - batch_size;
        let len = batch_size + 1;
        assert forall|i: int| 0 <= i < q.len() implies start <= #[trigger] q[i] < end by {
            share_bounds(sum, len, i + 1, i + 1);
        }
        assert forall|i: int, j: int| 0 <= i < j < q.len() implies #[trigger] q[i]
            < #[trigger] q[j] by {
            share_bounds(sum, len, i + 1, j + 1);
            share_bounds(sum, len, j + 1, j + 1);
        }
    }
}

/// Picks the L1 blocks to ask for when the answer lies in `start..=end`.
pub fn pick_query_points(start: u64, end: u64, batch_size: usize) -> (r: Vec<u64>)
    requires
        start <= end,
    ensures
        r@ == query_points(start, end, batch_size),
{
    let mut queries: Vec<u64> = Vec::new();
    let bs: u64 = batch_size as u64;
    if end - start <= bs {
        let mut current: u64 = start;
        while current < end
            invariant
                start <= current <= end,
                queries@ =~= Seq::new((current - start) as nat, |i: int| (start + i) as u64),
            decreases end - current,
        {
            queries.push(current);
            current = current + 1;
        }
    } else {
        let skips = bresenham(end - start - bs, bs + 1);
        let ghost sum = end - start - batch_size;
        let ghost len = batch_size + 1;
        let mut current: u64 = start;
        let mut i: usize = 0;
        proof {
            share_bounds(sum, len, 0, 0);
            assert(0 * sum == 0) by (nonlinear_arith);
            vstd::arithmetic::div_mod::lemma_div_basics(len);
        }
        while i < batch_size
            invariant
                i <= batch_size,
                bs == batch_size,
                end - start > bs,
                sum == end - start - batch_size,
                len == batch_size + 1,
                skips.len() == len,
                forall|j: int|
                    0 <= j < len ==> #[trigger] skips[j] == spread::share(sum, len, j + 1)
                        - spread::share(sum, len, j),
                current == start + i + spread::share(sum, len, i as int),
                queries@ =~= Seq::new(
                    i as nat,
                    |j: int| (start + j + spread::share(sum, len, j + 1)) as u64,
                ),
            decreases batch_size - i,
        {
            proof {
                share_bounds(sum, len, i as int, i + 1);
            }
            current = current + skips[i];
            queries.push(current);
            current = current + 1;
            i = i + 1;
        }
    }
    queries
}

/// The cache `m` after the answers `responses` to the questions `l1_block_numbers`, as far as their
/// first `n` are concerned.
pub open spec fn recorded_all(
    m: Map<u64, (u64, u64)>,
    l1_block_numbers: Seq<u64>,
    responses: Seq<SafeHeadResponse>,
    n: nat,
) -> Map<u64, (u64, u64)>
    decreases n,
{
    if n == 0 {
        m
    } else {
        let i = n - 1;
        l1_range_cache::recorded(
            recorded_all(m, l1_block_numbers, responses, i as nat),
            responses[i].safe_head.number,
            responses[i].l1_block.number,
            l1_block_numbers[i],
        )
    }
}

/// The L1 block hashes `m` after the first `n` of `responses`.
pub open spec fn hashes_after(
    m: Map<u64, B256>,
    responses: Seq<SafeHeadResponse>,
    n: nat,
) -> Map<u64, B256>
    decreases n,
{
    if n == 0 {
        m
    } else {
        hashes_after(m, responses, (n - 1) as nat).insert(
            responses[n - 1].l1_block.number,
            responses[n - 1].l1_block.hash,
        )
    }
}

/// The number of questions that have an answer.
pub open spec fn answered(
    l1_block_numbers: Seq<u64>,
    responses: Seq<SafeHeadResponse>,
) -> nat {
    if l1_block_numbers.len() < responses.len() {
        l1_block_numbers.len()
    } else {
        responses.len()
    }
}

/// What is known of a rollup node's safe heads, and how to ask for more.
#[derive(Debug)]
pub struct SafeDBClient {
    batch_size: usize,
    l2_to_l1_block_range: L1RangeCache,
    l1_safe_heads: HashMap<u64, B256>,
}

impl SafeDBClient {
    /// How many L1 blocks one round of questions may hold.
    pub closed spec fn batch(&self) -> usize {
        self.batch_size
    }

    /// The L1 blocks known to have a given L2 block as safe head.
    pub closed spec fn ranges(&self) -> Map<u64, (u64, u64)> {
        self.l2_to_l1_block_range@
    }

    /// The known L1 block hashes.
    pub closed spec fn hashes(&self) -> Map<u64, B256> {
        self.l1_safe_heads@
    }

    pub fn new(batch_size: usize) -> (r: Self)
        ensures
            r.batch() == batch_size,
            r.ranges() == Map::<u64, (u64, u64)>::empty(),
            r.hashes() == Map::<u64, B256>::empty(),
    {
        SafeDBClient {
            batch_size,
            l2_to_l1_block_range: L1RangeCache::new(),
            l1_safe_heads: HashMap::new(),
        }
    }

    /// The L2 block that is safe at `l1_block_number`, if the range of the first cached L2 block
    /// from `hint_l2_block_number` on covers it.
    pub fn l1_to_l2_safe(
        &self,
        l1_block_number: u64,
        hint_l2_block_number: Option<u64>,
    ) -> (r: SafeHeadLookup)
        ensures
            match r {
                SafeHeadLookup::Known(l2_safe) => {
                    &&& hint_l2_block_number is Some
                    &&& l1_range_cache::is_first_from(
                        self.ranges(),
                        hint_l2_block_number->0,
                        l2_safe,
                    )
                    &&& self.ranges()[l2_safe].0 <= l1_block_number <= self.ranges()[l2_safe].1
                },
                SafeHeadLookup::Query(bn) => {
                    &&& bn == l1_block_number
                    &&& hint_l2_block_number is Some ==> l1_range_cache::is_uncovered(
                        self.ranges(),
                        hint_l2_block_number->0,
                        l1_block_number,
                    )
                },
            },
    {
        if let Some(bn) = hint_l2_block_number {
            if let Some((l2_safe, (l1_first, l1_last))) = self.l2_to_l1_block_range.first_from(bn) {
                if l1_first <= l1_block_number && l1_block_number <= l1_last {
                    return SafeHeadLookup::Known(l2_safe);
                }
            }
        }
        SafeHeadLookup::Query(l1_block_number)
    }

    /// Caches the answers to a round of questions. The safe head at `l1_block_numbers[i]` is
    /// `responses[i]`.
    pub fn cache_safe_heads(
        &mut self,
        l1_block_numbers: &Vec<u64>,
        responses: &Vec<SafeHeadResponse>,
    )
        ensures
            final(self).batch() == old(self).batch(),
            final(self).hashes() == hashes_after(
                old(self).hashes(),
                responses@,
                responses@.len(),
            ),
            final(self).ranges() == recorded_all(
                old(self).ranges(),
                l1_block_numbers@,
                responses@,
                answered(l1_block_numbers@, responses@),
            ),
    {
        let mut i: usize = 0;
        while i < responses.len()
            invariant
                i <= responses.len(),
                self.batch() == old(self).batch(),
                self.ranges() == old(self).ranges(),
                self.hashes() == hashes_after(old(self).hashes(), responses@, i as nat),
            decreases responses.len() - i,
        {
            let l1_block = responses[i].l1_block;
            self.l1_safe_heads.insert(l1_block.number, l1_block.hash);
            i = i + 1;
        }
        let mut j: usize = 0;
        while j < responses.len() && j < l1_block_numbers.len()
            invariant
                j <= answered(l1_block_numbers@, responses@),
                self.batch() == old(self).batch(),
                self.hashes() == hashes_after(old(self).hashes(), responses@, responses@.len()),
                self.ranges() == recorded_all(
                    old(self).ranges(),
                    l1_block_numbers@,
                    responses@,
                    j as nat,
                ),
            decreases responses.len() - j,
        {
            let resp = responses[j];
            self.l2_to_l1_block_range.record(
                resp.safe_head.number,
                resp.l1_block.number,
                l1_block_numbers[j],
            );
            j = j + 1;
        }
    }

    /// Whether it is cached where this L2 block is the safe head.
    pub fn is_cached(&self, l2_block_number: u64) -> (r: bool)
        ensures
            r == self.ranges().contains_key(l2_block_number),
    {
        self.l2_to_l1_block_range.get(l2_block_number).is_some()
    }

    /// Shortens a search interval by what is cached.
    fn narrow(&self, l2_block_number: u64, start: u64, end: u64) -> (r: (u64, u64))
        requires
            start <= end,
        ensures
            r.0 == narrowed_start(self.ranges(), l2_block_number, start, end),
            r.1 == narrowed_end(self.ranges(), l2_block_number, r.0, end),
            start <= r.0 <= r.1 <= end,
    {
        let start: u64 = match self.l2_to_l1_block_range.last_below(l2_block_number) {
            Some((k, (_, l1_last))) => {
                proof {
                    let c = choose|c: u64|
                        l1_range_cache::is_last_below(self.ranges(), l2_block_number, c);
                    assert(l1_range_cache::is_last_below(self.ranges(), l2_block_number, k));
                    assert(self.ranges().contains_key(c) && self.ranges().contains_key(k));
                    assert(c == k);
                }
                if l1_last >= end {
                    end
                } else if l1_last + 1 < start {
                    start
                } else {
                    l1_last + 1
                }
            },
            None => start,
        };
        let end: u64 = match self.l2_to_l1_block_range.first_from(l2_block_number) {
            Some((k, (l1_first, _))) => {
                proof {
                    let c = choose|c: u64|
                        l1_range_cache::is_first_from(self.ranges(), l2_block_number, c);
                    assert(l1_range_cache::is_first_from(self.ranges(), l2_block_number, k));
                    assert(self.ranges().contains_key(c) && self.ranges().contains_key(k));
                    assert(c == k);
                }
                if l1_first > end {
                    end
                } else if l1_first < start {
                    start
                } else {
                    l1_first
                }
            },
            None => end,
        };
        (start, end)
    }

    /// One round of the search for the first L1 head that makes the given L2 block number safe.
    /// If there is none in `start..end`, the search ends in `end`.
    ///
    /// An L2 block that is itself cached is looked up; its first L1 block may lie before `start`.
    pub fn l2_to_l1_safe_within_range(
        &self,
        l2_block_number: u64,
        start: u64,
        end: u64,
    ) -> (r: SafeHeadSearch)
        requires
            start <= end || self.ranges().contains_key(l2_block_number),
        ensures
            ({
                let new_start = narrowed_start(self.ranges(), l2_block_number, start, end);
                let new_end = narrowed_end(
                    self.ranges(),
                    l2_block_number,
                    new_start as u64,
                    end,
                );
                match r {
                    SafeHeadSearch::Found(l1_safe) => if self.ranges().contains_key(
                        l2_block_number,
                    ) {
                        l1_safe == cached_answer(self.ranges(), l2_block_number, end)
                    } else {
                        new_start == new_end && l1_safe == new_end
                    },
                    SafeHeadSearch::Query { start: s, end: e, l1_block_numbers } => {
                        &&& !self.ranges().contains_key(l2_block_number)
                        &&& s == new_start
                        &&& e == new_end
                        &&& start <= s < e <= end
                        &&& l1_block_numbers@ == query_points(s, e, self.batch())
                    },
                }
            }),
            r matches SafeHeadSearch::Found(l1_safe) ==> l1_safe <= end,
    {
        if let Some((l1_first, _)) = self.l2_to_l1_block_range.get(l2_block_number) {
            return SafeHeadSearch::Found(
                if l1_first < end {
                    l1_first
                } else {
                    end
                },
            );
        }
        let (new_start, new_end) = self.narrow(l2_block_number, start, end);
        if new_start == new_end {
            return SafeHeadSearch::Found(new_end);
        }
        SafeHeadSearch::Query {
            start: new_start,
            end: new_end,
            l1_block_numbers: pick_query_points(new_start, new_end, self.batch_size),
        }
    }

    /// The known hash of an L1 block.
    pub fn get_cached_l1_block_hash(&self, l1_block_number: u64) -> (r: Option<B256>)
        ensures
            r == (if self.hashes().contains_key(l1_block_number) {
                Some(self.hashes()[l1_block_number])
            } else {
                None
            }),
    {
        match self.l1_safe_heads.get(&l1_block_number) {
            Some(hash) => Some(*hash),
            None => None,
        }
    }

    /// Starts a search for the L1 block that makes an L2 block safe: the interval in which it is
    /// looked for, from the L2 block's L1 origin to `l1_max_block`.
    ///
    /// There is no such interval up to the earliest block.
    pub fn l1_search_range(resp: &OutputResponse, l1_max_block: BlockNumberOrTag) -> (r: Option<
        (u64, u64),
    >)
        ensures
            r == (match l1_max_block {
                BlockNumberOrTag::Earliest => None,
                BlockNumberOrTag::Latest => Some(
                    (resp.block_ref.l1_origin.number, resp.sync_status.current_l1.number),
                ),
                BlockNumberOrTag::Finalized => Some(
                    (resp.block_ref.l1_origin.number, resp.sync_status.finalized_l1.number),
                ),
                BlockNumberOrTag::Safe => Some(
                    (resp.block_ref.l1_origin.number, resp.sync_status.safe_l1.number),
                ),
                BlockNumberOrTag::Pending => Some(
                    (resp.block_ref.l1_origin.number, resp.sync_status.head_l1.number),
                ),
                BlockNumberOrTag::Number(bn) => Some((resp.block_ref.l1_origin.number, bn)),
            }),
    {
        let start: u64 = resp.block_ref.l1_origin.number;
        let end: u64 = match l1_max_block {
            BlockNumberOrTag::Latest => resp.sync_status.current_l1.number,
            BlockNumberOrTag::Finalized => resp.sync_status.finalized_l1.number,
            BlockNumberOrTag::Safe => resp.sync_status.safe_l1.number,
            BlockNumberOrTag::Earliest => {
                return None;
            },
            BlockNumberOrTag::Pending => resp.sync_status.head_l1.number,
            BlockNumberOrTag::Number(bn) => bn,
        };
        Some((start, end))
    }

    /// The last check of a search: the L2 block that is safe at `l1_safe` has to be the wanted one
    /// or a later one.
    pub fn confirm(
        l2_block_number: u64,
        l1_safe: u64,
        block_hash: B256,
        l2_safe: u64,
    ) -> (r: Option<BlockNumHash>)
        ensures
            r == (if l2_safe < l2_block_number {
                None
            } else {
                Some(BlockNumHash { number: l1_safe, hash: block_hash })
            }),
    {
        if l2_safe < l2_block_number {
            return None;
        }
        Some(BlockNumHash { number: l1_safe, hash: block_hash })
    }

    /// Goes on once the L1 block and its hash are known.
    fn verify_answer(&self, l2_block_number: u64, l1_safe: u64, hash: B256) -> (r: L1SafeStep)
        ensures
            self.verifies(l2_block_number, l1_safe, hash, r),
    {
        let hint: Option<u64> = Some(l2_block_number);
        assert(hint->0 == l2_block_number);
        match self.l1_to_l2_safe(l1_safe, hint) {
            SafeHeadLookup::Known(l2_safe) => L1SafeStep::Done(
                Self::confirm(l2_block_number, l1_safe, hash, l2_safe),
            ),
            SafeHeadLookup::Query(bn) => {
                let mut l1_block_numbers: Vec<u64> = Vec::new();
                l1_block_numbers.push(bn);
                assert(l1_block_numbers@ =~= seq![l1_safe]);
                L1SafeStep::Query { next: L1SafeSearch::SafeAt { l1_safe, hash }, l1_block_numbers }
            },
        }
    }

    /// What follows once the L1 block `l1_safe` and its hash are known: the safe head there is
    /// compared with the wanted block if it is cached, and asked for otherwise.
    pub open spec fn verifies(
        &self,
        l2_block_number: u64,
        l1_safe: u64,
        hash: B256,
        step: L1SafeStep,
    ) -> bool {
        match step {
            L1SafeStep::Done(found) => exists|l2_safe: u64|
                {
                    &&& #[trigger] l1_range_cache::is_first_from(
                        self.ranges(),
                        l2_block_number,
                        l2_safe,
                    )
                    &&& self.ranges()[l2_safe].0 <= l1_safe <= self.ranges()[l2_safe].1
                    &&& found == Some(BlockNumHash { number: l1_safe, hash })
                },
            L1SafeStep::Query { next, l1_block_numbers } => {
                &&& next == (L1SafeSearch::SafeAt { l1_safe, hash })
                &&& l1_block_numbers@ == seq![l1_safe]
                &&& forall|k: u64|
                    #[trigger] l1_range_cache::is_first_from(self.ranges(), l2_block_number, k)
                        ==> !(self.ranges()[k].0 <= l1_safe <= self.ranges()[k].1)
            },
        }
    }

    /// What follows once the search has ended in `l1_safe`: its hash is taken from the cache, or
    /// asked for.
    pub open spec fn continues_from(
        &self,
        l2_block_number: u64,
        l1_safe: u64,
        step: L1SafeStep,
    ) -> bool {
        if self.hashes().contains_key(l1_safe) {
            self.verifies(l2_block_number, l1_safe, self.hashes()[l1_safe], step)
        } else {
            step matches L1SafeStep::Query { next, l1_block_numbers } && next == (
            L1SafeSearch::HashOf { l1_safe }) && l1_block_numbers@ == seq![l1_safe]
        }
    }

    /// One step of the search for the L1 block that makes an L2 block safe, with its hash.
    ///
    /// `replies` are the answers to the questions of the step before, already cached; only the last
    /// check looks at them.
    pub fn l2_to_l1_safe(
        &self,
        l2_block_number: u64,
        search: L1SafeSearch,
        replies: &Vec<SafeHeadResponse>,
    ) -> (r: L1SafeStep)
        requires
            search matches L1SafeSearch::Within { start, end } ==> start <= end
                || self.ranges().contains_key(l2_block_number),
            search is SafeAt ==> replies.len() > 0,
        ensures
            match search {
                L1SafeSearch::Within { start, end } => {
                    let new_start = narrowed_start(self.ranges(), l2_block_number, start, end);
                    let new_end = narrowed_end(
                        self.ranges(),
                        l2_block_number,
                        new_start as u64,
                        end,
                    );
                    if self.ranges().contains_key(l2_block_number) {
                        self.continues_from(
                            l2_block_number,
                            cached_answer(self.ranges(), l2_block_number, end),
                            r,
                        )
                    } else if new_start == new_end {
                        self.continues_from(l2_block_number, new_end as u64, r)
                    } else {
                        r matches L1SafeStep::Query { next, l1_block_numbers } && next == (
                        L1SafeSearch::Within { start: new_start as u64, end: new_end as u64 })
                            && l1_block_numbers@ == query_points(
                            new_start as u64,
                            new_end as u64,
                            self.batch(),
                        )
                    }
                },
                L1SafeSearch::HashOf { l1_safe } => if self.hashes().contains_key(l1_safe) {
                    self.verifies(l2_block_number, l1_safe, self.hashes()[l1_safe], r)
                } else {
                    r == L1SafeStep::Done(None)
                },
                L1SafeSearch::SafeAt { l1_safe, hash } => r == L1SafeStep::Done(
                    if replies[0].safe_head.number < l2_block_number {
                        None
                    } else {
                        Some(BlockNumHash { number: l1_safe, hash })
                    },
                ),
            },
            r matches L1SafeStep::Query { next: L1SafeSearch::Within { start, end }, .. } ==> start
                <= end,
    {
        match search {
            L1SafeSearch::Within { start, end } => {
                match self.l2_to_l1_safe_within_range(l2_block_number, start, end) {
                    SafeHeadSearch::Query { start, end, l1_block_numbers } => L1SafeStep::Query {
                        next: L1SafeSearch::Within { start, end },
                        l1_block_numbers,
                    },
                    SafeHeadSearch::Found(l1_safe) => match self.get_cached_l1_block_hash(l1_safe) {
                        Some(hash) => self.verify_answer(l2_block_number, l1_safe, hash),
                        None => {
                            let mut l1_block_numbers: Vec<u64> = Vec::new();
                            l1_block_numbers.push(l1_safe);
                            assert(l1_block_numbers@ =~= seq![l1_safe]);
                            L1SafeStep::Query {
                                next: L1SafeSearch::HashOf { l1_safe },
                                l1_block_numbers,
                            }
                        },
                    },
                }
            },
            L1SafeSearch::HashOf { l1_safe } => match self.get_cached_l1_block_hash(l1_safe) {
                Some(hash) => self.verify_answer(l2_block_number, l1_safe, hash),
                None => L1SafeStep::Done(None),
            },
            L1SafeSearch::SafeAt { l1_safe, hash } => L1SafeStep::Done(
                Self::confirm(l2_block_number, l1_safe, hash, replies[0].safe_head.number),
            ),
        }
    }
}

} // verus!
