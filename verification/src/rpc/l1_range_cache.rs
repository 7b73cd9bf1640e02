//! Ranges of L1 blocks, keyed by the L2 block that was safe throughout.

use std::collections::BTreeMap;

use vstd::prelude::*;

verus! {

/// For each known safe L2 block, the first and the last L1 block at which it is known to be the
/// safe head.
#[derive(Debug)]
pub struct L1RangeCache {
    ranges: BTreeMap<u64, (u64, u64)>,
}

impl View for L1RangeCache {
    type V = Map<u64, (u64, u64)>;

    closed spec fn view(&self) -> Map<u64, (u64, u64)> {
        self.ranges@
    }
}

/// `key` is the greatest key of `m` below `bound`.
pub open spec fn is_last_below(m: Map<u64, (u64, u64)>, bound: u64, key: u64) -> bool {
    &&& m.contains_key(key)
    &&& key < bound
    &&& forall|k: u64| #[trigger] m.contains_key(k) && k < bound ==> k <= key
}

/// `key` is the least key of `m` that is `bound` or more.
pub open spec fn is_first_from(m: Map<u64, (u64, u64)>, bound: u64, key: u64) -> bool {
    &&& m.contains_key(key)
    &&& bound <= key
    &&& forall|k: u64| #[trigger] m.contains_key(k) && bound <= k ==> key <= k
}

/// No key of `m` is below `bound`.
pub open spec fn has_none_below(m: Map<u64, (u64, u64)>, bound: u64) -> bool {
    forall|k: u64| #[trigger] m.contains_key(k) ==> k >= bound
}

/// Every key of `m` is below `bound`.
pub open spec fn has_none_from(m: Map<u64, (u64, u64)>, bound: u64) -> bool {
    forall|k: u64| #[trigger] m.contains_key(k) ==> k < bound
}

/// The range of the least key of `m` that is `bound` or more does not hold `l1`, if there is one.
pub open spec fn is_uncovered(m: Map<u64, (u64, u64)>, bound: u64, l1: u64) -> bool {
    forall|k: u64| #[trigger] is_first_from(m, bound, k) ==> !(m[k].0 <= l1 <= m[k].1)
}

/// `m` after it was noted that `l2_safe` is the safe head at `l1_first` and at `l1_last`: the range
/// of `l2_safe` is the least one that holds these two and the range known before.
pub open spec fn recorded(
    m: Map<u64, (u64, u64)>,
    l2_safe: u64,
    l1_first: u64,
    l1_last: u64,
) -> Map<u64, (u64, u64)> {
    if m.contains_key(l2_safe) {
        let (first, last) = m[l2_safe];
        m.insert(
            l2_safe,
            (
                if first < l1_first {
                    first
                } else {
                    l1_first
                },
                if last > l1_last {
                    last
                } else {
                    l1_last
                },
            ),
        )
    } else {
        m.insert(l2_safe, (l1_first, l1_last))
    }
}

impl L1RangeCache {
    pub fn new() -> (r: Self)
        ensures
            r@ == Map::<u64, (u64, u64)>::empty(),
    {
        L1RangeCache { ranges: BTreeMap::new() }
    }

    /// The range recorded for `l2_safe`.
    pub fn get(&self, l2_safe: u64) -> (r: Option<(u64, u64)>)
        ensures
            r == (if self@.contains_key(l2_safe) {
                Some(self@[l2_safe])
            } else {
                None
            }),
    {
        match self.ranges.get(&l2_safe) {
            Some(range) => Some(*range),
            None => None,
        }
    }

    /// The entry with the greatest key below `bound`.
    pub fn last_below(&self, bound: u64) -> (r: Option<(u64, (u64, u64))>)
        ensures
            r is None ==> has_none_below(self@, bound),
            r matches Some((k, range)) ==> is_last_below(self@, bound, k) && range == self@[k],
    {
        let mut found: Option<(u64, (u64, u64))> = None;
        for kv in it: self.ranges.iter()
            invariant
                forall|k: u64|
                    #[trigger] self@.contains_key(k) ==> it.seq().contains((&k, &self@[k])),
                found is None ==> forall|i: int|
                    0 <= i < it.index() ==> *(#[trigger] it.seq()[i]).0 >= bound,
                found matches Some((k, range)) ==> {
                    &&& self@.contains_key(k)
                    &&& range == self@[k]
                    &&& k < bound
                    &&& forall|i: int|
                        0 <= i < it.index() && *(#[trigger] it.seq()[i]).0 < bound
                            ==> *it.seq()[i].0 <= k
                },
        {
            assert(self.ranges@.contains_key(*it.seq()[it.index()].0));
            let improves: bool = match found {
                Some((k, _)) => k < *kv.0,
                None => true,
            };
            if *kv.0 < bound && improves {
                found = Some((*kv.0, *kv.1));
            }
        }
        found
    }

    /// The entry with the least key that is `bound` or more.
    pub fn first_from(&self, bound: u64) -> (r: Option<(u64, (u64, u64))>)
        ensures
            r is None ==> has_none_from(self@, bound),
            r matches Some((k, range)) ==> is_first_from(self@, bound, k) && range == self@[k],
    {
        let mut found: Option<(u64, (u64, u64))> = None;
        for kv in it: self.ranges.iter()
            invariant
                forall|k: u64|
                    #[trigger] self@.contains_key(k) ==> it.seq().contains((&k, &self@[k])),
                found is None ==> forall|i: int|
                    0 <= i < it.index() ==> *(#[trigger] it.seq()[i]).0 < bound,
                found matches Some((k, range)) ==> {
                    &&& self@.contains_key(k)
                    &&& range == self@[k]
                    &&& bound <= k
                    &&& forall|i: int|
                        0 <= i < it.index() && bound <= *(#[trigger] it.seq()[i]).0
                            ==> k <= *it.seq()[i].0
                },
        {
            assert(self.ranges@.contains_key(*it.seq()[it.index()].0));
            let improves: bool = match found {
                Some((k, _)) => *kv.0 < k,
                None => true,
            };
            if bound <= *kv.0 && improves {
                found = Some((*kv.0, *kv.1));
            }
        }
        found
    }

    /// Notes that `l2_safe` is the safe head at `l1_first` and at `l1_last`.
    pub fn record(&mut self, l2_safe: u64, l1_first: u64, l1_last: u64)
        ensures
            final(self)@ == recorded(old(self)@, l2_safe, l1_first, l1_last),
    {
        let (first, last): (u64, u64) = match self.ranges.get(&l2_safe) {
            Some((first, last)) => (
                if *first < l1_first {
                    *first
                } else {
                    l1_first
                },
                if *last > l1_last {
                    *last
                } else {
                    l1_last
                },
            ),
            None => (l1_first, l1_last),
        };
        self.ranges.insert(l2_safe, (first, last));
    }
}

} // verus!
