//! The keys under which witnesses are stored, and the work on them that is under way.

use std::collections::BTreeMap;

use vstd::prelude::*;

use crate::common::bytes;
use crate::common::bytes::u64_be_bytes;
use crate::common::fixed_bytes::B256;

verus! {

/// The key of a range of blocks: a tag, zero bytes, and the bounds of the range in 8 bytes each,
/// most significant byte first.
pub open spec fn range_key_bytes(tag: u8, start_block: u64, end_block: u64) -> Seq<u8> {
    seq![tag] + Seq::new(15, |i: int| 0u8) + bytes::be_bytes(start_block as nat, 8)
        + bytes::be_bytes(end_block as nat, 8)
}

/// The key of a range of blocks.
pub fn range_key(tag: u8, start_block: u64, end_block: u64) -> (r: B256)
    ensures
        r@ == range_key_bytes(tag, start_block, end_block),
{
    let start = u64_be_bytes(start_block);
    let end = u64_be_bytes(end_block);
    let mut key = [0u8; 32];
    key[0] = tag;
    for i in 0..8
        invariant
            key@.len() == 32,
            key@[0] == tag,
            forall|j: int| 1 <= j < 16 ==> key@[j] == 0,
            forall|j: int| 0 <= j < i ==> key@[16 + j] == #[trigger] start@[j],
            forall|j: int| 0 <= j < i ==> key@[24 + j] == #[trigger] end@[j],
    {
        key[16 + i] = start[i];
        key[24 + i] = end[i];
    }
    assert(key@ =~= range_key_bytes(tag, start_block, end_block)) by {
        assert forall|j: int| 16 <= j < 24 implies key@[j] == #[trigger] range_key_bytes(
            tag,
            start_block,
            end_block,
        )[j] by {
            assert(key@[16 + (j - 16)] == start@[j - 16]);
        }
        assert forall|j: int| 24 <= j < 32 implies key@[j] == #[trigger] range_key_bytes(
            tag,
            start_block,
            end_block,
        )[j] by {
            assert(key@[24 + (j - 24)] == end@[j - 24]);
        }
    }
    B256 { bytes: key }
}

/// The tag and both bounds of a range can be read off its key: ranges never share a key, and
/// neither do keys with different tags.
pub proof fn range_key_is_injective(
    tag_a: u8,
    start_a: u64,
    end_a: u64,
    tag_b: u8,
    start_b: u64,
    end_b: u64,
)
    requires
        range_key_bytes(tag_a, start_a, end_a) == range_key_bytes(tag_b, start_b, end_b),
    ensures
        tag_a == tag_b,
        start_a == start_b,
        end_a == end_b,
{
    let (a, b) = (range_key_bytes(tag_a, start_a, end_a), range_key_bytes(tag_b, start_b, end_b));
    bytes::be_bytes_len(start_a as nat, 8);
    bytes::be_bytes_len(start_b as nat, 8);
    bytes::be_bytes_len(end_a as nat, 8);
    bytes::be_bytes_len(end_b as nat, 8);
    assert(a[0] == tag_a && b[0] == tag_b);
    assert(a.subrange(16, 24) =~= bytes::be_bytes(start_a as nat, 8));
    assert(b.subrange(16, 24) =~= bytes::be_bytes(start_b as nat, 8));
    assert(a.subrange(24, 32) =~= bytes::be_bytes(end_a as nat, 8));
    assert(b.subrange(24, 32) =~= bytes::be_bytes(end_b as nat, 8));
    bytes::byte_range_holds_integers();
    bytes::be_bytes_injective(start_a as nat, start_b as nat, 8);
    bytes::be_bytes_injective(end_a as nat, end_b as nat, 8);
}

/// The ranges that were worked on, each with whether the work is complete.
#[derive(Debug)]
pub struct WitnessTasks {
    tasks: BTreeMap<(u64, u64), bool>,
}

impl View for WitnessTasks {
    type V = Map<(u64, u64), bool>;

    closed spec fn view(&self) -> Map<(u64, u64), bool> {
        self.tasks@
    }
}

impl WitnessTasks {
    /// The work on this range is complete.
    pub open spec fn is_complete(&self, start_block: u64, end_block: u64) -> bool {
        self@.contains_key((start_block, end_block)) && self@[(start_block, end_block)]
    }

    pub fn new() -> (r: Self)
        ensures
            r@ == Map::<(u64, u64), bool>::empty(),
    {
        WitnessTasks { tasks: BTreeMap::new() }
    }

    /// Whether the work on a range has begun.
    pub fn has(&self, start_block: u64, end_block: u64) -> (r: bool)
        ensures
            r == self@.contains_key((start_block, end_block)),
    {
        self.tasks.contains_key(&(start_block, end_block))
    }

    /// Notes that the work on a range begins, unless it has. Returns whether it is complete.
    pub fn begin(&mut self, start_block: u64, end_block: u64) -> (r: bool)
        ensures
            r == old(self).is_complete(start_block, end_block),
            final(self)@ == (if old(self)@.contains_key((start_block, end_block)) {
                old(self)@
            } else {
                old(self)@.insert((start_block, end_block), false)
            }),
    {
        let known: Option<bool> = match self.tasks.get(&(start_block, end_block)) {
            Some(complete) => Some(*complete),
            None => None,
        };
        match known {
            Some(complete) => complete,
            None => {
                self.tasks.insert((start_block, end_block), false);
                false
            },
        }
    }

    /// Notes that the work on a range is complete.
    pub fn complete(&mut self, start_block: u64, end_block: u64)
        ensures
            final(self)@ == old(self)@.insert((start_block, end_block), true),
    {
        self.tasks.insert((start_block, end_block), true);
    }
}

} // verus!
