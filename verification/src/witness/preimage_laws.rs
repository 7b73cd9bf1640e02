//! What a store of preimages keeps and gives back.

use vstd::prelude::*;

use crate::common::fixed_bytes::B256;
use crate::common::hashing;
use crate::witness::preimage_store;
use crate::witness::preimage_store::check_preimage;
use crate::witness::preimage_store::CollectError;
use crate::witness::preimage_store::PreimageKey;
use crate::witness::preimage_store::PreimageOracleError;
use crate::witness::preimage_store::PreimageStore;
use crate::witness::preimage_store::PreimageWitnessCollector;
use crate::witness::preimage_store::SavePreimageError;

verus! {

/// The last 31 bytes of the digest that a key's type calls for are the key's data. A key of another
/// type fits any preimage.
pub open spec fn fits(key: PreimageKey, value: Seq<u8>) -> bool {
    &&& key.key_type is Keccak256 ==> key.data@ == hashing::keccak256_digest(value).skip(1)
    &&& key.key_type is Sha256 ==> key.data@ == hashing::sha256_digest(value).skip(1)
}

/// A preimage passes the check if and only if it fits its key.
pub proof fn check_compares_digest(
    key: &PreimageKey,
    value: &[u8],
    r: Result<(), PreimageOracleError>,
)
    requires
        call_ensures(check_preimage, (key, value), r),
    ensures
        r is Ok <==> fits(*key, value@),
        r matches Err(e) ==> e == PreimageOracleError::InvalidPreimageKey,
{
}

/// The 32 bytes of a key are one byte that says its type, then its data.
pub proof fn key_word_starts_with_type(key: &PreimageKey, word: B256)
    requires
        call_ensures(PreimageKey::to_word, (key,), word),
    ensures
        key.key_type is Local ==> word.bytes@[0] == 1,
        key.key_type is Keccak256 ==> word.bytes@[0] == 2,
        key.key_type is GlobalGeneric ==> word.bytes@[0] == 3,
        key.key_type is Sha256 ==> word.bytes@[0] == 4,
        key.key_type is Blob ==> word.bytes@[0] == 5,
        key.key_type is Precompile ==> word.bytes@[0] == 6,
        word.bytes@.skip(1) == key.data@,
{
    assert(word.bytes@ == word@);
    assert(word@.skip(1) =~= key.data@);
}

/// Two keys are the same if and only if their bytes are.
pub proof fn keys_are_told_apart(a: &PreimageKey, b: &PreimageKey, x: B256, y: B256, same: bool)
    requires
        call_ensures(PreimageKey::to_word, (a,), x),
        call_ensures(PreimageKey::to_word, (b,), y),
        call_ensures(PreimageKey::same_key, (a, b), same),
    ensures
        same <==> x.bytes@ == y.bytes@,
        same ==> a.key_type == b.key_type && a.data@ == b.data@,
{
    PreimageKey::same_view(*a, *b);
}

/// What was saved under a key is read back as it was given. Under other keys nothing changes.
pub proof fn saved_value_is_read_back(
    save: &mut PreimageStore,
    store: &PreimageStore,
    key: PreimageKey,
    value: Vec<u8>,
    reply: Result<Vec<u8>, PreimageOracleError>,
    other: PreimageKey,
)
    requires
        call_ensures(PreimageStore::save_preimage, (save, key, value), ()),
        *store == *final(save),
        call_ensures(PreimageStore::get, (store, key), reply),
    ensures
        reply matches Ok(found) && found@ == value@,
        other != key ==> {
            &&& store@.contains_key(other) <==> old(save)@.contains_key(other)
            &&& old(save)@.contains_key(other) ==> store@[other] == old(save)@[other]
        },
{
    assert(store@.contains_key(key));
}

/// What is read is what the store holds, and nothing is read that it does not hold. Reading into a
/// buffer gives the same.
pub proof fn reading_gives_what_is_held(
    store: &PreimageStore,
    key: PreimageKey,
    reply: Result<Vec<u8>, PreimageOracleError>,
    buf: &mut [u8],
    exact: Result<(), PreimageOracleError>,
)
    requires
        call_ensures(PreimageStore::get, (store, key), reply),
        call_ensures(PreimageStore::get_exact, (store, key, buf), exact),
    ensures
        reply is Ok <==> store@.contains_key(key),
        reply matches Ok(found) ==> found@ == store@[key] && exact is Ok && final(buf)@ == found@,
        reply is Err ==> reply == Err::<Vec<u8>, PreimageOracleError>(
            PreimageOracleError::InvalidPreimageKey,
        ) && exact == Err::<(), PreimageOracleError>(PreimageOracleError::InvalidPreimageKey)
            && final(buf)@ == old(buf)@,
{
}

/// A preimage is refused if it does not fit its key, or if another one is kept under the key. What
/// is refused changes nothing; what is accepted is kept. So a preimage that is kept is never
/// replaced.
pub proof fn kept_preimage_is_not_replaced(
    store: &mut PreimageStore,
    key: PreimageKey,
    value: Vec<u8>,
    r: Result<(), SavePreimageError>,
    other: PreimageKey,
)
    requires
        call_ensures(PreimageStore::try_save_preimage, (store, key, value), r),
    ensures
        r is Ok <==> fits(key, value@) && (old(store)@.contains_key(key) ==> old(store)@[key]
            == value@),
        r matches Err(e) ==> (e == SavePreimageError::InvalidPreimage <==> !fits(key, value@)),
        r is Err ==> final(store)@ == old(store)@,
        r is Ok ==> final(store)@.contains_key(key) && final(store)@[key] == value@,
        old(store)@.contains_key(other) ==> final(store)@.contains_key(other)
            && final(store)@[other] == old(store)@[other],
        final(store)@.contains_key(other) ==> old(store)@.contains_key(other) || other == key,
{
}

/// A store passes its check if and only if each of its preimages passes.
pub proof fn whole_store_is_checked(
    store: &PreimageStore,
    r: Result<(), PreimageOracleError>,
)
    requires
        call_ensures(PreimageStore::check_preimages, (store,), r),
        forall|key: PreimageKey| #[trigger]
            store@.contains_key(key) ==> !(key.key_type is Blob) && !(key.key_type is Precompile),
    ensures
        r is Ok <==> forall|key: PreimageKey| #[trigger]
            store@.contains_key(key) ==> fits(key, store@[key]),
{
    if forall|key: PreimageKey| #[trigger] store@.contains_key(key) ==> fits(key, store@[key]) {
        assert forall|key: PreimageKey| #[trigger]
            store@.contains_key(key) implies preimage_store::is_checkable(key)
            && preimage_store::commits_to(key, store@[key]) by {
            assert(fits(key, store@[key]));
        }
        assert(store.is_valid());
    }
    if store.is_valid() {
        assert forall|key: PreimageKey| #[trigger] store@.contains_key(key) implies fits(
            key,
            store@[key],
        ) by {
            assert(preimage_store::commits_to(key, store@[key]));
        }
    }
}

/// A store that is made of the entries of another holds the same.
pub proof fn written_store_is_read_back(
    store: &PreimageStore,
    entries: Vec<(PreimageKey, Vec<u8>)>,
    restored: PreimageStore,
)
    requires
        call_ensures(PreimageStore::entries, (store,), entries),
        call_ensures(PreimageStore::from_entries, (entries,), restored),
    ensures
        restored@ == store@,
{
    preimage_store::entries_restore_the_store(entries@, store@);
}

/// Of the entries of a list the last under each key counts.
pub proof fn last_entry_counts(
    entries: Vec<(PreimageKey, Vec<u8>)>,
    store: PreimageStore,
    i: int,
)
    requires
        call_ensures(PreimageStore::from_entries, (entries,), store),
        0 <= i < entries@.len(),
        forall|j: int| i < j < entries@.len() ==> (#[trigger] entries@[j]).0 != entries@[i].0,
    ensures
        store@.contains_key(entries@[i].0),
        store@[entries@[i].0] == entries@[i].1@,
{
    last_of_entries_counts(entries@, entries@.len(), i);
}

proof fn last_of_entries_counts(entries: Seq<(PreimageKey, Vec<u8>)>, n: nat, i: int)
    requires
        0 <= i < n <= entries.len(),
        forall|j: int| i < j < n ==> (#[trigger] entries[j]).0 != entries[i].0,
    ensures
        preimage_store::entries_map(entries, n).contains_key(entries[i].0),
        preimage_store::entries_map(entries, n)[entries[i].0] == entries[i].1@,
    decreases n,
{
    if i < n - 1 {
        last_of_entries_counts(entries, (n - 1) as nat, i);
        assert(entries[n - 1].0 != entries[i].0);
    }
}

/// A collector hands on what the oracle replies and keeps it, as long as it fits its key and agrees
/// with what was collected before. It keeps nothing else, and an error of the oracle is handed on as
/// it is.
pub proof fn collector_keeps_what_it_hands_on<E>(
    collector: &mut PreimageWitnessCollector,
    key: PreimageKey,
    reply: Result<Vec<u8>, E>,
    r: Result<Vec<u8>, CollectError<E>>,
    other: PreimageKey,
)
    requires
        call_ensures(PreimageWitnessCollector::collect::<E>, (collector, key, reply), r),
    ensures
        r is Ok <==> (reply matches Ok(value) && fits(key, value@) && (old(
            collector,
        ).preimage_witness_store@.contains_key(key) ==> old(collector).preimage_witness_store@[key]
            == value@)),
        r matches Ok(value) ==> reply is Ok && value@ == reply->Ok_0@
            && final(collector).preimage_witness_store@.contains_key(key)
            && final(collector).preimage_witness_store@[key] == value@,
        reply matches Err(e) ==> r == Err::<Vec<u8>, CollectError<E>>(CollectError::Oracle(e)),
        reply matches Ok(value) && !fits(key, value@) ==> r == Err::<Vec<u8>, CollectError<E>>(
            CollectError::Save(SavePreimageError::InvalidPreimage),
        ),
        reply matches Ok(value) && fits(key, value@) && r is Err ==> r == Err::<
            Vec<u8>,
            CollectError<E>,
        >(CollectError::Save(SavePreimageError::Overwrite)),
        r is Err ==> final(collector).preimage_witness_store@ == old(
            collector,
        ).preimage_witness_store@,
        other != key ==> {
            &&& final(collector).preimage_witness_store@.contains_key(other) <==> old(
                collector,
            ).preimage_witness_store@.contains_key(other)
            &&& old(collector).preimage_witness_store@.contains_key(other)
                ==> final(collector).preimage_witness_store@[other] == old(
                collector,
            ).preimage_witness_store@[other]
        },
{
}

} // verus!
