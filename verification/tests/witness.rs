use alloy_primitives::keccak256;
use rise_fault_proof::common::fixed_bytes::B256;
use rise_fault_proof::witness::preimage_store::check_preimage;
use rise_fault_proof::witness::preimage_store::CollectError;
use rise_fault_proof::witness::preimage_store::PreimageKey;
use rise_fault_proof::witness::preimage_store::PreimageKeyType;
use rise_fault_proof::witness::preimage_store::PreimageOracleError;
use rise_fault_proof::witness::preimage_store::PreimageStore;
use rise_fault_proof::witness::preimage_store::PreimageWitnessCollector;
use rise_fault_proof::witness::preimage_store::SavePreimageError;
use sha2::Digest;

fn key(key_type: PreimageKeyType, hash: [u8; 32]) -> PreimageKey {
    PreimageKey { key_type, data: hash[1..].try_into().unwrap() }
}

fn keccak_key(value: &[u8]) -> PreimageKey {
    key(PreimageKeyType::Keccak256, keccak256(value).0)
}

fn sha_key(value: &[u8]) -> PreimageKey {
    key(PreimageKeyType::Sha256, sha2::Sha256::digest(value).into())
}

fn local_key(ident: u8) -> PreimageKey {
    let mut data = [0; 31];
    data[30] = ident;
    PreimageKey { key_type: PreimageKeyType::Local, data }
}

#[test]
fn keys_commit_to_preimages() {
    assert_eq!(check_preimage(&keccak_key(b"hello"), b"hello"), Ok(()));
    assert_eq!(check_preimage(&sha_key(b"hello"), b"hello"), Ok(()));
    let invalid = Err(PreimageOracleError::InvalidPreimageKey);
    assert_eq!(check_preimage(&keccak_key(b"hello"), b"hullo"), invalid);
    assert_eq!(check_preimage(&sha_key(b"hello"), b"hullo"), invalid);
    let mixed = key(PreimageKeyType::Sha256, keccak256(b"hello").0);
    assert_eq!(check_preimage(&mixed, b"hello"), invalid);
    assert_eq!(check_preimage(&local_key(1), b"anything"), Ok(()));
    let generic = key(PreimageKeyType::GlobalGeneric, [7; 32]);
    assert_eq!(check_preimage(&generic, b"anything"), Ok(()));
}

#[test]
fn first_byte_of_the_hash_does_not_count() {
    let mut hash = keccak256(b"hello").0;
    hash[0] ^= 0xff;
    assert_eq!(check_preimage(&key(PreimageKeyType::Keccak256, hash), b"hello"), Ok(()));
}

#[test]
fn keys_are_written_with_their_type_first() {
    let word: [u8; 32] = kona_preimage::PreimageKey::new_keccak256(keccak256(b"hello").0).into();
    assert_eq!(keccak_key(b"hello").to_word(), B256 { bytes: word });
    assert_eq!(local_key(7).to_word().bytes[0], 1);
    assert_eq!(sha_key(b"").to_word().bytes[0], 4);
    assert_eq!(key(PreimageKeyType::GlobalGeneric, [0; 32]).to_word().bytes[0], 3);
    assert_eq!(key(PreimageKeyType::Blob, [0; 32]).to_word().bytes[0], 5);
    assert_eq!(key(PreimageKeyType::Precompile, [0; 32]).to_word().bytes[0], 6);
    assert!(local_key(7).same_key(&local_key(7)));
    assert!(!local_key(7).same_key(&local_key(8)));
    assert!(!keccak_key(b"").same_key(&sha_key(b"")));
}

#[test]
fn saved_preimages_are_read_back() {
    let mut store = PreimageStore::new();
    for i in 0..100u8 {
        let value = vec![i; i as usize];
        assert_eq!(store.try_save_preimage(keccak_key(&value), value.clone()), Ok(()));
        assert_eq!(store.try_save_preimage(sha_key(&value), value.clone()), Ok(()));
        assert_eq!(store.try_save_preimage(local_key(i), value), Ok(()));
    }
    for i in 0..100u8 {
        let value = vec![i; i as usize];
        assert_eq!(store.get(keccak_key(&value)), Ok(value.clone()));
        assert_eq!(store.get(sha_key(&value)), Ok(value.clone()));
        assert_eq!(store.get(local_key(i)), Ok(value));
    }
    assert_eq!(store.get(local_key(100)), Err(PreimageOracleError::InvalidPreimageKey));
    assert_eq!(store.check_preimages(), Ok(()));
}

#[test]
fn preimages_are_copied_into_a_buffer() {
    let mut store = PreimageStore::new();
    store.save_preimage(keccak_key(b"abc"), b"abc".to_vec());
    let mut buf = vec![0; 3];
    assert_eq!(store.get_exact(keccak_key(b"abc"), &mut buf), Ok(()));
    assert_eq!(buf, b"abc");
    let missing = Err(PreimageOracleError::InvalidPreimageKey);
    assert_eq!(store.get_exact(keccak_key(b"xyz"), &mut buf), missing);
    assert_eq!(buf, b"abc");
}

#[test]
fn store_is_restored_from_its_entries() {
    let mut store = PreimageStore::new();
    for i in 0..50u8 {
        let value = vec![i; 3];
        store.save_preimage(keccak_key(&value), value.clone());
        store.save_preimage(local_key(i), value);
    }
    let entries = store.entries();
    assert_eq!(entries.len(), 100);
    let restored = PreimageStore::from_entries(entries);
    for i in 0..50u8 {
        assert_eq!(restored.get(keccak_key(&[i; 3])), Ok(vec![i; 3]));
        assert_eq!(restored.get(local_key(i)), Ok(vec![i; 3]));
    }
    assert_eq!(restored.check_preimages(), Ok(()));
    let wrong = PreimageStore::from_entries(vec![(keccak_key(b"abc"), b"abd".to_vec())]);
    assert_eq!(wrong.check_preimages(), Err(PreimageOracleError::InvalidPreimageKey));
    let twice = PreimageStore::from_entries(vec![
        (local_key(1), b"one".to_vec()),
        (local_key(1), b"two".to_vec()),
    ]);
    assert_eq!(twice.get(local_key(1)), Ok(b"two".to_vec()));
    assert_eq!(PreimageStore::new().entries().len(), 0);
}

#[test]
fn bad_preimages_are_not_kept() {
    let mut store = PreimageStore::new();
    assert_eq!(
        store.try_save_preimage(keccak_key(b"abc"), b"abd".to_vec()),
        Err(SavePreimageError::InvalidPreimage)
    );
    assert_eq!(store.try_save_preimage(local_key(1), b"one".to_vec()), Ok(()));
    assert_eq!(store.try_save_preimage(local_key(1), b"one".to_vec()), Ok(()));
    assert_eq!(
        store.try_save_preimage(local_key(1), b"two".to_vec()),
        Err(SavePreimageError::Overwrite)
    );
    assert_eq!(store.get(local_key(1)), Ok(b"one".to_vec()));
    assert_eq!(store.check_preimages(), Ok(()));
}

#[test]
fn collector_keeps_what_the_oracle_gives() {
    let mut collector = PreimageWitnessCollector::new();
    let reply: Result<Vec<u8>, u8> = Ok(b"abc".to_vec());
    assert_eq!(collector.collect(keccak_key(b"abc"), reply), Ok(b"abc".to_vec()));
    assert_eq!(collector.preimage_witness_store.get(keccak_key(b"abc")), Ok(b"abc".to_vec()));
    let failed: Result<Vec<u8>, u8> = Err(9);
    assert_eq!(collector.collect(keccak_key(b"x"), failed), Err(CollectError::Oracle(9)));
    let wrong: Result<Vec<u8>, u8> = Ok(b"y".to_vec());
    assert_eq!(
        collector.collect(keccak_key(b"x"), wrong),
        Err(CollectError::Save(SavePreimageError::InvalidPreimage))
    );
    collector.save(local_key(1), b"one");
    let other: Result<Vec<u8>, u8> = Ok(b"two".to_vec());
    assert_eq!(
        collector.collect(local_key(1), other),
        Err(CollectError::Save(SavePreimageError::Overwrite))
    );
    assert_eq!(collector.preimage_witness_store.check_preimages(), Ok(()));
}
