//! A store of witnesses that stands on its own.

use vstd::prelude::*;

use crate::common::fixed_bytes::B256;
use crate::eigenda::cache_key;
use crate::eigenda::cache_key::range_key;
use crate::eigenda::cache_key::WitnessTasks;
use crate::eigenda::host::CACHE_KEY_TAG;

verus! {

/// The tag of the keys of this store.
pub const PRECACHER_KEY_TAG: u8 = 0xca;

/// Why there is no witness.
#[derive(Clone, Copy, Debug, PartialEq, Eq, Structural)]
pub enum PrecacherError {
    /// There is nothing to fetch blocks with.
    FetcherNotSet,
    /// The witness holds no EigenDA data.
    MissingEigenDAWitness,
}

/// What is left to do for a witness.
#[derive(Clone, Copy, Debug, PartialEq, Eq)]
pub enum PrecacherWork {
    /// Nothing: it is stored under this key.
    Done { key: B256 },
    /// It has to be made and stored under this key.
    Generate { key: B256 },
}

/// The key under which the witness of a range is stored.
pub fn encode_key(l2_start_block: u64, l2_end_block: u64) -> (r: B256)
    ensures
        r@ == cache_key::range_key_bytes(PRECACHER_KEY_TAG, l2_start_block, l2_end_block),
{
    range_key(PRECACHER_KEY_TAG, l2_start_block, l2_end_block)
}

/// The witnesses that were made.
#[derive(Debug)]
pub struct WitnessPrecacher {
    tasks: WitnessTasks,
    has_fetcher: bool,
}

impl WitnessPrecacher {
    pub closed spec fn work(&self) -> Map<(u64, u64), bool> {
        self.tasks@
    }

    pub closed spec fn can_fetch(&self) -> bool {
        self.has_fetcher
    }

    pub fn new() -> (r: Self)
        ensures
            r.work() == Map::<(u64, u64), bool>::empty(),
            !r.can_fetch(),
    {
        WitnessPrecacher { tasks: WitnessTasks::new(), has_fetcher: false }
    }

    pub fn with_fetcher(self) -> (r: Self)
        ensures
            r.work() == self.work(),
            r.can_fetch(),
    {
        WitnessPrecacher { tasks: self.tasks, has_fetcher: true }
    }

    /// Starts to make the witness of a range, unless it was made.
    pub fn ensure_witness_precached(&mut self, l2_start_block: u64, l2_end_block: u64) -> (r:
        Result<PrecacherWork, PrecacherError>)
        ensures
            final(self).can_fetch() == old(self).can_fetch(),
            final(self).work() == (if old(self).work().contains_key(
                (l2_start_block, l2_end_block),
            ) {
                old(self).work()
            } else {
                old(self).work().insert((l2_start_block, l2_end_block), false)
            }),
            !old(self).can_fetch() ==> r == Err::<PrecacherWork, PrecacherError>(
                PrecacherError::FetcherNotSet,
            ),
            old(self).can_fetch() ==> {
                let bytes = cache_key::range_key_bytes(
                    PRECACHER_KEY_TAG,
                    l2_start_block,
                    l2_end_block,
                );
                if old(self).work().contains_key((l2_start_block, l2_end_block)) && old(
                    self,
                ).work()[(l2_start_block, l2_end_block)] {
                    r matches Ok(PrecacherWork::Done { key }) && key@ == bytes
                } else {
                    r matches Ok(PrecacherWork::Generate { key }) && key@ == bytes
                }
            },
    {
        let key = encode_key(l2_start_block, l2_end_block);
        let complete: bool = self.tasks.begin(l2_start_block, l2_end_block);
        if !self.has_fetcher {
            return Err(PrecacherError::FetcherNotSet);
        }
        if complete {
            Ok(PrecacherWork::Done { key })
        } else {
            Ok(PrecacherWork::Generate { key })
        }
    }

    /// Notes that the witness of a range is stored.
    pub fn precached(&mut self, l2_start_block: u64, l2_end_block: u64)
        ensures
            final(self).can_fetch() == old(self).can_fetch(),
            final(self).work() == old(self).work().insert((l2_start_block, l2_end_block), true),
    {
        self.tasks.complete(l2_start_block, l2_end_block);
    }

    /// The EigenDA data of a witness that can be completed.
    pub fn completable(&self, eigenda_data: Option<Vec<u8>>) -> (r: Result<
        Vec<u8>,
        PrecacherError,
    >)
        ensures
            r == (match eigenda_data {
                Some(data) => if self.can_fetch() {
                    Ok::<Vec<u8>, PrecacherError>(data)
                } else {
                    Err(PrecacherError::FetcherNotSet)
                },
                None => Err(PrecacherError::MissingEigenDAWitness),
            }),
    {
        match eigenda_data {
            Some(data) => {
                if self.has_fetcher {
                    Ok(data)
                } else {
                    Err(PrecacherError::FetcherNotSet)
                }
            },
            None => Err(PrecacherError::MissingEigenDAWitness),
        }
    }
}

/// No witness of this store has the key of a witness that a host stores.
pub proof fn stores_do_not_collide(start_a: u64, end_a: u64, start_b: u64, end_b: u64)
    ensures
        cache_key::range_key_bytes(PRECACHER_KEY_TAG, start_a, end_a)
            != cache_key::range_key_bytes(CACHE_KEY_TAG, start_b, end_b),
{
    if cache_key::range_key_bytes(PRECACHER_KEY_TAG, start_a, end_a) == cache_key::range_key_bytes(
        CACHE_KEY_TAG,
        start_b,
        end_b,
    ) {
        cache_key::range_key_is_injective(
            PRECACHER_KEY_TAG,
            start_a,
            end_a,
            CACHE_KEY_TAG,
            start_b,
            end_b,
        );
    }
}

} // verus!
