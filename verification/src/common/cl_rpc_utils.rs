//! A search for safe heads that asks for an interval in which the answer lies.

use vstd::prelude::*;

use crate::rpc::cl;
use crate::rpc::cl::pick_query_points;
use crate::rpc::cl::SafeHeadLookup;
use crate::rpc::cl::SafeHeadResponse;
use crate::rpc::cl::SafeHeadSearch;
use crate::rpc::l1_range_cache;
use crate::rpc::l1_range_cache::L1RangeCache;

verus! {

/// The start of a search interval once the greatest cached L2 block below `l2` was used.
pub open spec fn raised_start(m: Map<u64, (u64, u64)>, l2: u64, start: u64) -> int {
    if exists|k: u64| l1_range_cache::is_last_below(m, l2, k) {
        let k = choose|k: u64| l1_range_cache::is_last_below(m, l2, k);
        if m[k].1 + 1 > start {
            m[k].1 + 1
        } else {
            start as int
        }
    } else {
        start as int
    }
}

/// The end of a search interval once the least cached L2 block from `l2` on was used.
pub open spec fn lowered_end(m: Map<u64, (u64, u64)>, l2: u64, end: u64) -> int {
    if exists|k: u64| l1_range_cache::is_first_from(m, l2, k) {
        let k = choose|k: u64| l1_range_cache::is_first_from(m, l2, k);
        if m[k].0 < end {
            m[k].0 as int
        } else {
            end as int
        }
    } else {
        end as int
    }
}

/// What is known of a rollup node's safe heads, and how to ask for more.
#[derive(Debug)]
pub struct SafeDBClient {
    batch_size: usize,
    cache: L1RangeCache,
}

impl SafeDBClient {
    pub closed spec fn batch(&self) -> usize {
        self.batch_size
    }

    pub closed spec fn ranges(&self) -> Map<u64, (u64, u64)> {
        self.cache@
    }

    /// No cached range ends with the last block that has a number.
    pub open spec fn wf(&self) -> bool {
        forall|k: u64| #[trigger] self.ranges().contains_key(k) ==> self.ranges()[k].1 < u64::MAX
    }

    pub fn new(batch_size: usize) -> (r: Self)
        ensures
            r.wf(),
            r.batch() == batch_size,
            r.ranges() == Map::<u64, (u64, u64)>::empty(),
    {
        SafeDBClient { batch_size, cache: L1RangeCache::new() }
    }

    /// The L2 block that is safe at `l1_block_number`, if the range of the first cached L2 block
    /// from `hint_l2_block_number` on covers it.
    pub fn l1_to_l2_safe(
        &self,
        l1_block_number: u64,
        hint_l2_block_number: Option<u64>,
    ) -> (r: SafeHeadLookup)
        ensures
            match r {
                SafeHeadLookup::Known(l2_safe) => {
                    &&& hint_l2_block_number is Some
                    &&& l1_range_cache::is_first_from(
                        self.ranges(),
                        hint_l2_block_number->0,
                        l2_safe,
                    )
                    &&& self.ranges()[l2_safe].0 <= l1_block_number <= self.ranges()[l2_safe].1
                },
                SafeHeadLookup::Query(bn) => {
                    &&& bn == l1_block_number
                    &&& hint_l2_block_number is Some ==> l1_range_cache::is_uncovered(
                        self.ranges(),
                        hint_l2_block_number->0,
                        l1_block_number,
                    )
                },
            },
    {
        if let Some(bn) = hint_l2_block_number {
            if let Some((l2_safe, (l1_first, l1_last))) = self.cache.first_from(bn) {
                if l1_first <= l1_block_number && l1_block_number <= l1_last {
                    return SafeHeadLookup::Known(l2_safe);
                }
            }
        }
        SafeHeadLookup::Query(l1_block_number)
    }

    /// Caches the answers to a round of questions. The safe head at `l1_block_numbers[i]` is
    /// `responses[i]`.
    pub fn cache_safe_heads(
        &mut self,
        l1_block_numbers: &Vec<u64>,
        responses: &Vec<SafeHeadResponse>,
    )
        requires
            old(self).wf(),
            forall|i: int|
                0 <= i < l1_block_numbers@.len() ==> (#[trigger] l1_block_numbers@[i]) < u64::MAX,
        ensures
            final(self).wf(),
            final(self).batch() == old(self).batch(),
            final(self).ranges() == cl::recorded_all(
                old(self).ranges(),
                l1_block_numbers@,
                responses@,
                cl::answered(l1_block_numbers@, responses@),
            ),
    {
        let mut j: usize = 0;
        while j < responses.len() && j < l1_block_numbers.len()
            invariant
                j <= cl::answered(l1_block_numbers@, responses@),
                forall|i: int|
                    0 <= i < l1_block_numbers@.len() ==> (#[trigger] l1_block_numbers@[i])
                        < u64::MAX,
                self.wf(),
                self.batch() == old(self).batch(),
                self.ranges() == cl::recorded_all(
                    old(self).ranges(),
                    l1_block_numbers@,
                    responses@,
                    j as nat,
                ),
            decreases responses.len() - j,
        {
            let resp = responses[j];
            assert(l1_block_numbers@[j as int] < u64::MAX);
            self.cache.record(
                resp.safe_head.number,
                resp.l1_block.number,
                l1_block_numbers[j],
            );
            j = j + 1;
        }
    }

    /// Shortens a search interval by what is cached. The bounds may cross.
    pub fn narrow(&self, l2_block_number: u64, start: u64, end: u64) -> (r: (u64, u64))
        requires
            self.wf(),
        ensures
            r.0 == raised_start(self.ranges(), l2_block_number, start),
            r.1 == lowered_end(self.ranges(), l2_block_number, end),
    {
        let new_start: u64 = match self.cache.last_below(l2_block_number) {
            Some((k, (_, l1_last))) => {
                proof {
                    let c = choose|c: u64|
                        l1_range_cache::is_last_below(self.ranges(), l2_block_number, c);
                    assert(l1_range_cache::is_last_below(self.ranges(), l2_block_number, k));
                    assert(self.ranges().contains_key(c) && self.ranges().contains_key(k));
                    assert(c == k);
                }
                if l1_last + 1 > start {
                    l1_last + 1
                } else {
                    start
                }
            },
            None => start,
        };
        let new_end: u64 = match self.cache.first_from(l2_block_number) {
            Some((k, (l1_first, _))) => {
                proof {
                    let c = choose|c: u64|
                        l1_range_cache::is_first_from(self.ranges(), l2_block_number, c);
                    assert(l1_range_cache::is_first_from(self.ranges(), l2_block_number, k));
                    assert(self.ranges().contains_key(c) && self.ranges().contains_key(k));
                    assert(c == k);
                }
                if l1_first < end {
                    l1_first
                } else {
                    end
                }
            },
            None => end,
        };
        (new_start, new_end)
    }

    /// One round of the search for the first L1 head that makes the given L2 block number safe. What
    /// is cached must not rule out the whole interval.
    pub fn l2_to_l1_safe(&self, l2_block_number: u64, start: u64, end: u64) -> (r: SafeHeadSearch)
        requires
            self.wf(),
            !self.ranges().contains_key(l2_block_number) ==> raised_start(
                self.ranges(),
                l2_block_number,
                start,
            ) <= lowered_end(self.ranges(), l2_block_number, end),
        ensures
            ({
                let new_start = raised_start(self.ranges(), l2_block_number, start);
                let new_end = lowered_end(self.ranges(), l2_block_number, end);
                match r {
                    SafeHeadSearch::Found(l1_safe) => if self.ranges().contains_key(
                        l2_block_number,
                    ) {
                        l1_safe == self.ranges()[l2_block_number].0
                    } else {
                        new_start == new_end && l1_safe == new_start
                    },
                    SafeHeadSearch::Query { start: s, end: e, l1_block_numbers } => {
                        &&& !self.ranges().contains_key(l2_block_number)
                        &&& s == new_start
                        &&& e == new_end
                        &&& s < e
                        &&& l1_block_numbers@ == cl::query_points(s, e, self.batch())
                    },
                }
            }),
    {
        if let Some((l1_first, _)) = self.cache.get(l2_block_number) {
            return SafeHeadSearch::Found(l1_first);
        }
        let (new_start, new_end) = self.narrow(l2_block_number, start, end);
        if new_start == new_end {
            return SafeHeadSearch::Found(new_start);
        }
        SafeHeadSearch::Query {
            start: new_start,
            end: new_end,
            l1_block_numbers: pick_query_points(new_start, new_end, self.batch_size),
        }
    }
}

/// As long as the bounds do not cross, this search shortens its interval as the one that keeps
/// within its bounds does.
pub proof fn searches_agree(m: Map<u64, (u64, u64)>, l2: u64, start: u64, end: u64)
    requires
        start <= end,
        raised_start(m, l2, start) <= lowered_end(m, l2, end),
    ensures
        raised_start(m, l2, start) == cl::narrowed_start(m, l2, start, end),
        lowered_end(m, l2, end) == cl::narrowed_end(
            m,
            l2,
            cl::narrowed_start(m, l2, start, end) as u64,
            end,
        ),
{
}

} // verus!
