//! Preimages, each under a key that commits to it.

use std::collections::BTreeMap;

use vstd::bytes::u128_from_le_bytes;
use vstd::prelude::*;

use crate::common::bytes;
use crate::common::bytes::bytes_eq;
use crate::common::bytes::copy_bytes;
use crate::common::fixed_bytes::B256;
use crate::common::hashing;
use crate::common::hashing::keccak256;
use crate::common::hashing::sha256;

verus! {

/// How a key commits to its preimage.
#[derive(Clone, Copy, Debug, PartialEq, Eq, Structural)]
pub enum PreimageKeyType {
    /// By agreement: the key has a meaning of its own.
    Local,
    /// By its Keccak-256 digest.
    Keccak256,
    /// Not at all.
    GlobalGeneric,
    /// By its SHA-256 digest.
    Sha256,
    Blob,
    Precompile,
}

impl PreimageKeyType {
    /// The first byte of a key of this type.
    pub open spec fn code(self) -> u8 {
        match self {
            PreimageKeyType::Local => 1,
            PreimageKeyType::Keccak256 => 2,
            PreimageKeyType::GlobalGeneric => 3,
            PreimageKeyType::Sha256 => 4,
            PreimageKeyType::Blob => 5,
            PreimageKeyType::Precompile => 6,
        }
    }

    fn type_byte(&self) -> (r: u8)
        ensures
            r == self.code(),
    {
        match self {
            PreimageKeyType::Local => 1,
            PreimageKeyType::Keccak256 => 2,
            PreimageKeyType::GlobalGeneric => 3,
            PreimageKeyType::Sha256 => 4,
            PreimageKeyType::Blob => 5,
            PreimageKeyType::Precompile => 6,
        }
    }
}

/// The key of a preimage: a type and 31 bytes.
#[derive(Clone, Copy, Debug)]
pub struct PreimageKey {
    pub key_type: PreimageKeyType,
    pub data: [u8; 31],
}

impl View for PreimageKey {
    type V = Seq<u8>;

    /// The 32 bytes of the key: the type's byte, then the data.
    open spec fn view(&self) -> Seq<u8> {
        seq![self.key_type.code()] + self.data@
    }
}

impl PreimageKey {
    /// Keys with the same bytes are the same key.
    pub proof fn same_view(a: PreimageKey, b: PreimageKey)
        ensures
            a@ == b@ ==> a == b,
    {
        if a@ == b@ {
            assert(a@[0] == b@[0]);
            assert(a.data@ =~= a@.skip(1));
            assert(b.data@ =~= b@.skip(1));
            assert(a.data =~= b.data);
        }
    }

    /// `kona_preimage::PreimageKey::new`: the low-order 31 bytes of a 32-byte value, under the
    /// given type.
    #[verifier::external_body]
    pub(crate) fn new(value: B256, key_type: PreimageKeyType) -> (r: PreimageKey)
        ensures
            r.key_type == key_type,
            r.data@ == value@.skip(1),
    {
        let kona_type = match key_type {
            PreimageKeyType::Local => kona_preimage::PreimageKeyType::Local,
            PreimageKeyType::Keccak256 => kona_preimage::PreimageKeyType::Keccak256,
            PreimageKeyType::GlobalGeneric => kona_preimage::PreimageKeyType::GlobalGeneric,
            PreimageKeyType::Sha256 => kona_preimage::PreimageKeyType::Sha256,
            PreimageKeyType::Blob => kona_preimage::PreimageKeyType::Blob,
            PreimageKeyType::Precompile => kona_preimage::PreimageKeyType::Precompile,
        };
        let key: [u8; 32] = kona_preimage::PreimageKey::new(value.bytes, kona_type).into();
        PreimageKey { key_type, data: key[1..].try_into().unwrap() }
    }

    /// `kona_preimage::PreimageKey::new_local`: the identifier in the low-order 8 bytes of the
    /// data, most significant byte first, after zero bytes.
    #[verifier::external_body]
    pub(crate) fn new_local(local_ident: u64) -> (r: PreimageKey)
        ensures
            r.key_type == PreimageKeyType::Local,
            r.data@ == bytes::be_bytes(local_ident as nat, 31),
    {
        let key: [u8; 32] = kona_preimage::PreimageKey::new_local(local_ident).into();
        PreimageKey { key_type: PreimageKeyType::Local, data: key[1..].try_into().unwrap() }
    }

    /// The 32 bytes of the key.
    pub fn to_word(&self) -> (r: B256)
        ensures
            r@ == self@,
    {
        let mut word = [0u8; 32];
        word[0] = self.key_type.type_byte();
        for i in 0..31
            invariant
                word@.len() == 32,
                word@[0] == self.key_type.code(),
                forall|j: int| 0 <= j < i ==> word@[j + 1] == #[trigger] self.data@[j],
        {
            word[i + 1] = self.data[i];
        }
        assert(word@ =~= self@);
        B256 { bytes: word }
    }

    pub fn same_key(&self, other: &PreimageKey) -> (r: bool)
        ensures
            r == (*self == *other),
    {
        let equal: bool = self.key_type == other.key_type && bytes_eq(
            self.data.as_slice(),
            other.data.as_slice(),
        );
        proof {
            if equal {
                assert(self.data =~= other.data);
            }
        }
        equal
    }
}

/// Why a preimage is not accepted.
#[derive(Clone, Copy, Debug, PartialEq, Eq, Structural)]
pub enum PreimageOracleError {
    InvalidPreimageKey,
}

/// Preimages of these types can be checked; those of other types are not kept here.
pub open spec fn is_checkable(key: PreimageKey) -> bool {
    key.key_type != PreimageKeyType::Precompile && key.key_type != PreimageKeyType::Blob
}

/// The key commits to this preimage.
pub open spec fn commits_to(key: PreimageKey, value: Seq<u8>) -> bool {
    match key.key_type {
        PreimageKeyType::Keccak256 => key.data@ == hashing::keccak256_digest(value).skip(1),
        PreimageKeyType::Sha256 => key.data@ == hashing::sha256_digest(value).skip(1),
        _ => true,
    }
}

/// Checks that the preimage matches the hash that its key holds.
pub fn check_preimage(key: &PreimageKey, value: &[u8]) -> (r: Result<(), PreimageOracleError>)
    requires
        is_checkable(*key),
    ensures
        r is Ok <==> commits_to(*key, value@),
        r is Err ==> r == Err::<(), PreimageOracleError>(PreimageOracleError::InvalidPreimageKey),
{
    let expected_hash = match key.key_type {
        PreimageKeyType::Keccak256 => Some(keccak256(value)),
        PreimageKeyType::Sha256 => Some(sha256(value)),
        _ => None,
    };
    if let Some(hash) = expected_hash {
        let expected_key = PreimageKey::new(hash, key.key_type);
        proof {
            if key.data@ == expected_key.data@ {
                assert(key.data =~= expected_key.data);
            }
        }
        if !key.same_key(&expected_key) {
            return Err(PreimageOracleError::InvalidPreimageKey);
        }
    }
    Ok(())
}

/// A key as a pair of integers.
spec fn packed(key: PreimageKey) -> (u128, u128) {
    (
        vstd::bytes::spec_u128_from_le_bytes(key@.subrange(0, 16)),
        vstd::bytes::spec_u128_from_le_bytes(key@.subrange(16, 32)),
    )
}

proof fn packed_is_injective(a: PreimageKey, b: PreimageKey)
    ensures
        packed(a) == packed(b) ==> a == b,
{
    if packed(a) == packed(b) {
        vstd::bytes::lemma_auto_spec_u128_to_from_le_bytes();
        let (a0, a1) = (a@.subrange(0, 16), a@.subrange(16, 32));
        let (b0, b1) = (b@.subrange(0, 16), b@.subrange(16, 32));
        assert(vstd::bytes::spec_u128_to_le_bytes(vstd::bytes::spec_u128_from_le_bytes(a0)) == a0);
        assert(vstd::bytes::spec_u128_to_le_bytes(vstd::bytes::spec_u128_from_le_bytes(b0)) == b0);
        assert(vstd::bytes::spec_u128_to_le_bytes(vstd::bytes::spec_u128_from_le_bytes(a1)) == a1);
        assert(vstd::bytes::spec_u128_to_le_bytes(vstd::bytes::spec_u128_from_le_bytes(b1)) == b1);
        assert(a@ =~= a0 + a1);
        assert(b@ =~= b0 + b1);
        PreimageKey::same_view(a, b);
    }
}

fn pack(key: &PreimageKey) -> (r: (u128, u128))
    ensures
        r == packed(*key),
{
    let word = key.to_word();
    let all = word.bytes.as_slice();
    (
        u128_from_le_bytes(vstd::slice::slice_subrange(all, 0, 16)),
        u128_from_le_bytes(vstd::slice::slice_subrange(all, 16, 32)),
    )
}

/// Preimages by their keys.
#[derive(Debug)]
pub struct PreimageStore {
    preimage_map: BTreeMap<(u128, u128), (PreimageKey, Vec<u8>)>,
}

impl View for PreimageStore {
    type V = Map<PreimageKey, Seq<u8>>;

    closed spec fn view(&self) -> Map<PreimageKey, Seq<u8>> {
        Map::new(
            |key: PreimageKey| self.preimage_map@.contains_key(packed(key)),
            |key: PreimageKey| self.preimage_map@[packed(key)].1@,
        )
    }
}

impl PreimageStore {
    /// Every entry is filed under the integers of its own key.
    #[verifier::type_invariant]
    spec fn wf(self) -> bool {
        forall|p: (u128, u128)| #[trigger]
            self.preimage_map@.contains_key(p) ==> packed(self.preimage_map@[p].0) == p
    }

    /// Every preimage can be checked.
    pub open spec fn is_checkable(&self) -> bool {
        forall|key: PreimageKey| #[trigger] self@.contains_key(key) ==> is_checkable(key)
    }

    /// Every key commits to its preimage.
    pub open spec fn is_valid(&self) -> bool {
        forall|key: PreimageKey| #[trigger]
            self@.contains_key(key) ==> is_checkable(key) && commits_to(key, self@[key])
    }

    /// `reply` is what the store says of a key: its preimage, or that there is none.
    pub open spec fn answers(
        &self,
        key: PreimageKey,
        reply: Result<Vec<u8>, PreimageOracleError>,
    ) -> bool {
        match reply {
            Ok(value) => self@.contains_key(key) && value@ == self@[key],
            Err(e) => !self@.contains_key(key) && e == PreimageOracleError::InvalidPreimageKey,
        }
    }

    pub fn new() -> (r: Self)
        ensures
            r@ == Map::<PreimageKey, Seq<u8>>::empty(),
            r.is_valid(),
    {
        let store = PreimageStore { preimage_map: BTreeMap::new() };
        assert(store@ =~= Map::<PreimageKey, Seq<u8>>::empty());
        store
    }

    /// The preimages that a list holds. Whether their keys commit to them is not checked. Of two
    /// preimages under one key the later one counts.
    pub fn from_entries(entries: Vec<(PreimageKey, Vec<u8>)>) -> (r: Self)
        ensures
            r@ == entries_map(entries@, entries@.len()),
    {
        let mut store = PreimageStore::new();
        for i in 0..entries.len()
            invariant
                store@ == entries_map(entries@, i as nat),
        {
            let (key, value) = &entries[i];
            store.insert(*key, copy_bytes(value.as_slice()));
        }
        store
    }

    /// Checks every preimage.
    pub fn check_preimages(&self) -> (r: Result<(), PreimageOracleError>)
        requires
            self.is_checkable(),
        ensures
            r is Ok <==> self.is_valid(),
    {
        proof {
            use_type_invariant(self);
        }
        for entry in it: self.preimage_map.iter()
            invariant
                self.is_checkable(),
                self.wf(),
                forall|p: (u128, u128)| #[trigger]
                    self.preimage_map@.contains_key(p) ==> it.seq().contains(
                        (&p, &self.preimage_map@[p]),
                    ),
                forall|j: int|
                    0 <= j < it.index() ==> commits_to(
                        (#[trigger] it.seq()[j]).1.0,
                        it.seq()[j].1.1@,
                    ),
        {
            assert(self.preimage_map@.contains_key(*it.seq()[it.index()].0));
            assert(self@.contains_key(entry.1.0));
            match check_preimage(&entry.1.0, entry.1.1.as_slice()) {
                Ok(()) => {},
                Err(e) => {
                    return Err(e);
                },
            }
        }
        proof {
            assert forall|key: PreimageKey| #[trigger] self@.contains_key(key) implies commits_to(
                key,
                self@[key],
            ) by {
                let p = packed(key);
                assert(self.preimage_map@.contains_key(p));
                packed_is_injective(key, self.preimage_map@[p].0);
            }
        }
        Ok(())
    }

    /// The preimage under a key.
    pub fn get(&self, key: PreimageKey) -> (r: Result<Vec<u8>, PreimageOracleError>)
        ensures
            self.answers(key, r),
    {
        match self.preimage_map.get(&pack(&key)) {
            Some(entry) => Ok(copy_bytes(entry.1.as_slice())),
            None => Err(PreimageOracleError::InvalidPreimageKey),
        }
    }

    /// Copies the preimage under a key into `buf`, which has to be of its length.
    pub fn get_exact(&self, key: PreimageKey, buf: &mut [u8]) -> (r: Result<
        (),
        PreimageOracleError,
    >)
        requires
            self@.contains_key(key) ==> old(buf)@.len() == self@[key].len(),
        ensures
            match r {
                Ok(()) => self@.contains_key(key) && final(buf)@ == self@[key],
                Err(e) => !self@.contains_key(key) && final(buf)@ == old(buf)@ && e
                    == PreimageOracleError::InvalidPreimageKey,
            },
    {
        match self.get(key) {
            Ok(value) => {
                for i in 0..value.len()
                    invariant
                        buf@.len() == value@.len(),
                        forall|j: int| 0 <= j < i ==> buf@[j] == value@[j],
                {
                    buf[i] = value[i];
                }
                assert(buf@ =~= value@);
                Ok(())
            },
            Err(e) => Err(e),
        }
    }

    /// Keeps a preimage. Its key has to commit to it, and no other preimage may be kept under it.
    pub fn save_preimage(&mut self, key: PreimageKey, value: Vec<u8>)
        requires
            is_checkable(key),
            commits_to(key, value@),
            old(self)@.contains_key(key) ==> old(self)@[key] == value@,
        ensures
            final(self)@ == old(self)@.insert(key, value@),
            old(self).is_valid() ==> final(self).is_valid(),
    {
        self.insert(key, value);
    }

    /// Files a preimage under its key.
    fn insert(&mut self, key: PreimageKey, value: Vec<u8>)
        ensures
            final(self)@ == old(self)@.insert(key, value@),
    {
        proof {
            use_type_invariant(&*self);
        }
        let mut map: BTreeMap<(u128, u128), (PreimageKey, Vec<u8>)> = BTreeMap::new();
        std::mem::swap(&mut map, &mut self.preimage_map);
        map.insert(pack(&key), (key, value));
        self.preimage_map = map;
        proof {
            let after = old(self)@.insert(key, value@);
            assert forall|k: PreimageKey| #[trigger] self@.contains_key(k) == after.contains_key(
                k,
            ) by {
                packed_is_injective(k, key);
            }
            assert forall|k: PreimageKey| self@.contains_key(k) implies #[trigger] self@[k]
                == after[k] by {
                packed_is_injective(k, key);
            }
            assert(self@ =~= after);
        }
    }

    /// All preimages with their keys.
    pub fn entries(&self) -> (r: Vec<(PreimageKey, Vec<u8>)>)
        ensures
            are_entries(r@, self@),
    {
        proof {
            use_type_invariant(self);
        }
        let mut entries: Vec<(PreimageKey, Vec<u8>)> = Vec::new();
        for entry in it: self.preimage_map.iter()
            invariant
                self.wf(),
                forall|p: (u128, u128)| #[trigger]
                    self.preimage_map@.contains_key(p) ==> it.seq().contains(
                        (&p, &self.preimage_map@[p]),
                    ),
                it.seq().no_duplicates(),
                entries@.len() == it.index(),
                forall|j: int|
                    0 <= j < it.index() ==> {
                        let (p, kept) = #[trigger] it.seq()[j];
                        &&& self.preimage_map@.contains_key(*p)
                        &&& self.preimage_map@[*p] == *kept
                        &&& entries@[j].0 == kept.0
                        &&& entries@[j].1@ == kept.1@
                    },
                forall|j: int|
                    0 <= j < it.index() ==> self@.contains_key((#[trigger] entries@[j]).0)
                        && entries@[j].1@ == self@[entries@[j].0],
                forall|i: int, j: int|
                    0 <= i < j < it.index() ==> (#[trigger] entries@[i]).0
                        != (#[trigger] entries@[j]).0,
        {
            let ghost n = it.index();
            assert(self.preimage_map@.contains_key(*it.seq()[n].0));
            proof {
                assert forall|i: int| 0 <= i < n implies (#[trigger] entries@[i]).0
                    != entry.1.0 by {
                    assert(it.seq()[i] != it.seq()[n]);
                }
            }
            entries.push((entry.1.0, copy_bytes(entry.1.1.as_slice())));
        }
        proof {
            assert forall|key: PreimageKey| #[trigger] self@.contains_key(key) implies has_entry(
                entries@,
                key,
            ) by {
                let p = packed(key);
                assert(self.preimage_map@.contains_key(p));
                packed_is_injective(key, self.preimage_map@[p].0);
            }
        }
        entries
    }

    /// Keeps a preimage, if its key commits to it and no other preimage is kept under it.
    pub fn try_save_preimage(&mut self, key: PreimageKey, value: Vec<u8>) -> (r: Result<
        (),
        SavePreimageError,
    >)
        requires
            is_checkable(key),
        ensures
            match r {
                Ok(()) => {
                    &&& commits_to(key, value@)
                    &&& old(self)@.contains_key(key) ==> old(self)@[key] == value@
                    &&& final(self)@ == old(self)@.insert(key, value@)
                },
                Err(SavePreimageError::InvalidPreimage) => {
                    &&& !commits_to(key, value@)
                    &&& final(self)@ == old(self)@
                },
                Err(SavePreimageError::Overwrite) => {
                    &&& commits_to(key, value@)
                    &&& old(self)@.contains_key(key) && old(self)@[key] != value@
                    &&& final(self)@ == old(self)@
                },
            },
            old(self).is_valid() ==> final(self).is_valid(),
    {
        if check_preimage(&key, value.as_slice()).is_err() {
            return Err(SavePreimageError::InvalidPreimage);
        }
        if let Ok(kept) = self.get(key) {
            if !bytes_eq(kept.as_slice(), value.as_slice()) {
                return Err(SavePreimageError::Overwrite);
            }
        }
        self.save_preimage(key, value);
        Ok(())
    }
}

/// Why a preimage is not kept.
#[derive(Clone, Copy, Debug, PartialEq, Eq, Structural)]
pub enum SavePreimageError {
    /// The key does not commit to the preimage.
    InvalidPreimage,
    /// Another preimage is kept under the key.
    Overwrite,
}

/// `entries` holds each preimage of `m` once, under its key.
pub open spec fn are_entries(
    entries: Seq<(PreimageKey, Vec<u8>)>,
    m: Map<PreimageKey, Seq<u8>>,
) -> bool {
    &&& forall|i: int|
        0 <= i < entries.len() ==> m.contains_key((#[trigger] entries[i]).0) && entries[i].1@
            == m[entries[i].0]
    &&& forall|key: PreimageKey| #[trigger] m.contains_key(key) ==> has_entry(entries, key)
    &&& forall|i: int, j: int|
        0 <= i < j < entries.len() ==> (#[trigger] entries[i]).0 != (#[trigger] entries[j]).0
}

pub open spec fn has_entry(entries: Seq<(PreimageKey, Vec<u8>)>, key: PreimageKey) -> bool {
    exists|i: int| 0 <= i < entries.len() && (#[trigger] entries[i]).0 == key
}

/// The preimages of the first `n` entries.
pub open spec fn entries_map(entries: Seq<(PreimageKey, Vec<u8>)>, n: nat) -> Map<
    PreimageKey,
    Seq<u8>,
>
    decreases n,
{
    if n == 0 {
        Map::empty()
    } else {
        entries_map(entries, (n - 1) as nat).insert(entries[n - 1].0, entries[n - 1].1@)
    }
}

/// A store is the same after it was written out and read back.
pub proof fn entries_restore_the_store(
    entries: Seq<(PreimageKey, Vec<u8>)>,
    m: Map<PreimageKey, Seq<u8>>,
)
    requires
        are_entries(entries, m),
    ensures
        entries_map(entries, entries.len()) == m,
{
    entries_map_holds(entries, entries.len());
    let restored = entries_map(entries, entries.len());
    assert forall|key: PreimageKey| restored.contains_key(key) == m.contains_key(key) by {
        if m.contains_key(key) {
            assert(has_entry(entries, key));
            let i = choose|i: int| 0 <= i < entries.len() && (#[trigger] entries[i]).0 == key;
            assert(restored.contains_key(entries[i].0));
        }
    }
    assert forall|key: PreimageKey| restored.contains_key(key) implies restored[key] == m[key] by {
        let i = choose|i: int| 0 <= i < entries.len() && (#[trigger] entries[i]).0 == key;
        assert(restored[entries[i].0] == entries[i].1@);
    }
    assert(restored =~= m);
}

/// The first `n` of distinct entries can be looked up, and nothing else.
proof fn entries_map_holds(entries: Seq<(PreimageKey, Vec<u8>)>, n: nat)
    requires
        n <= entries.len(),
        forall|i: int, j: int|
            0 <= i < j < entries.len() ==> (#[trigger] entries[i]).0 != (#[trigger] entries[j]).0,
    ensures
        forall|i: int|
            0 <= i < n ==> entries_map(entries, n).contains_key((#[trigger] entries[i]).0)
                && entries_map(entries, n)[entries[i].0] == entries[i].1@,
        forall|key: PreimageKey| #[trigger]
            entries_map(entries, n).contains_key(key) ==> exists|i: int|
                0 <= i < n && (#[trigger] entries[i]).0 == key,
    decreases n,
{
    if n > 0 {
        entries_map_holds(entries, (n - 1) as nat);
        assert forall|key: PreimageKey| #[trigger]
            entries_map(entries, n).contains_key(key) implies exists|i: int|
            0 <= i < n && (#[trigger] entries[i]).0 == key by {
            if key == entries[n - 1].0 {
                assert(entries[n - 1].0 == key);
            } else {
                assert(entries_map(entries, (n - 1) as nat).contains_key(key));
            }
        }
    }
}

/// What was saved under a key is read back, and other keys read as before.
pub proof fn saved_preimage_is_read_back(
    before: PreimageStore,
    after: PreimageStore,
    key: PreimageKey,
    value: Seq<u8>,
    reply: Result<Vec<u8>, PreimageOracleError>,
    other: PreimageKey,
    other_reply: Result<Vec<u8>, PreimageOracleError>,
)
    requires
        after@ == before@.insert(key, value),
        after.answers(key, reply),
    ensures
        reply is Ok && reply->Ok_0@ == value,
        other != key ==> after.answers(other, other_reply) == before.answers(other, other_reply),
{
}

/// The preimages that a run has asked for.
#[derive(Debug)]
pub struct PreimageWitnessCollector {
    pub preimage_witness_store: PreimageStore,
}

impl PreimageWitnessCollector {
    pub fn new() -> (r: Self)
        ensures
            r.preimage_witness_store@ == Map::<PreimageKey, Seq<u8>>::empty(),
            r.preimage_witness_store.is_valid(),
    {
        PreimageWitnessCollector { preimage_witness_store: PreimageStore::new() }
    }

    /// Keeps a copy of a preimage.
    pub fn save(&mut self, key: PreimageKey, value: &[u8])
        requires
            is_checkable(key),
            commits_to(key, value@),
            old(self).preimage_witness_store@.contains_key(key) ==> old(
                self,
            ).preimage_witness_store@[key] == value@,
        ensures
            final(self).preimage_witness_store@ == old(self).preimage_witness_store@.insert(
                key,
                value@,
            ),
            old(self).preimage_witness_store.is_valid()
                ==> final(self).preimage_witness_store.is_valid(),
    {
        self.preimage_witness_store.save_preimage(key, copy_bytes(value));
    }

    /// Hands on the oracle's reply to a request for a preimage, and keeps a copy of the preimage.
    /// An oracle's error is handed on as it is.
    pub fn collect<E>(&mut self, key: PreimageKey, reply: Result<Vec<u8>, E>) -> (r: Result<
        Vec<u8>,
        CollectError<E>,
    >)
        requires
            is_checkable(key),
        ensures
            match (reply, r) {
                (Ok(value), Ok(handed_on)) => {
                    &&& handed_on@ == value@
                    &&& commits_to(key, value@)
                    &&& old(self).preimage_witness_store@.contains_key(key) ==> old(
                        self,
                    ).preimage_witness_store@[key] == value@
                    &&& final(self).preimage_witness_store@ == old(
                        self,
                    ).preimage_witness_store@.insert(key, value@)
                },
                (Ok(value), Err(CollectError::Save(e))) => {
                    &&& e == SavePreimageError::InvalidPreimage <==> !commits_to(key, value@)
                    &&& e == SavePreimageError::Overwrite ==> old(
                        self,
                    ).preimage_witness_store@.contains_key(key) && old(
                        self,
                    ).preimage_witness_store@[key] != value@
                    &&& final(self).preimage_witness_store@ == old(self).preimage_witness_store@
                },
                (Err(e), Err(CollectError::Oracle(f))) => {
                    &&& e == f
                    &&& final(self).preimage_witness_store@ == old(self).preimage_witness_store@
                },
                _ => false,
            },
            old(self).preimage_witness_store.is_valid()
                ==> final(self).preimage_witness_store.is_valid(),
    {
        let value = match reply {
            Ok(value) => value,
            Err(e) => {
                return Err(CollectError::Oracle(e));
            },
        };
        match self.preimage_witness_store.try_save_preimage(key, copy_bytes(value.as_slice())) {
            Ok(()) => Ok(value),
            Err(e) => Err(CollectError::Save(e)),
        }
    }
}

/// Why a preimage was not collected.
#[derive(Debug, PartialEq, Eq)]
pub enum CollectError<E> {
    /// The oracle does not have it.
    Oracle(E),
    /// It is not kept.
    Save(SavePreimageError),
}

} // verus!
