use rise_fault_proof::common::fixed_bytes::B256;
use rise_fault_proof::eigenda::host::complete_witness;
use rise_fault_proof::eigenda::host::get_cache_key;
use rise_fault_proof::eigenda::host::given_l1_head;
use rise_fault_proof::eigenda::host::mock_mode;
use rise_fault_proof::eigenda::host::safe_l1_head_number;
use rise_fault_proof::eigenda::host::store_mode;
use rise_fault_proof::eigenda::host::stored_witness;
use rise_fault_proof::eigenda::host::CanoeProof;
use rise_fault_proof::eigenda::host::HostError;
use rise_fault_proof::eigenda::host::PrecacheAction;
use rise_fault_proof::eigenda::host::PrecacheEvent;
use rise_fault_proof::eigenda::host::PrecacheStart;
use rise_fault_proof::eigenda::host::PrecacheState;
use rise_fault_proof::eigenda::host::PrecachedLookup;
use rise_fault_proof::eigenda::host::Precaching;
use rise_fault_proof::eigenda::host::RangeProofPlan;
use rise_fault_proof::eigenda::host::StoreMode;
use rise_fault_proof::eigenda::host::WitnessHost;
use rise_fault_proof::eigenda::precacher::encode_key;
use rise_fault_proof::eigenda::precacher::PrecacherError;
use rise_fault_proof::eigenda::precacher::PrecacherWork;
use rise_fault_proof::eigenda::precacher::WitnessPrecacher;
use rise_fault_proof::eigenda::provider::classify_response;
use rise_fault_proof::eigenda::provider::fetched_payload;
use rise_fault_proof::eigenda::provider::get_encoded_payload;
use rise_fault_proof::eigenda::provider::get_validity;
use rise_fault_proof::eigenda::provider::payload_path;
use rise_fault_proof::eigenda::provider::payload_url;
use rise_fault_proof::eigenda::provider::DerivationVerdict;
use rise_fault_proof::eigenda::provider::FetchedBody;
use rise_fault_proof::eigenda::provider::PayloadError;
use rise_fault_proof::eigenda::provider::PayloadFailure;
use rise_fault_proof::eigenda::provider::MAX_URL_LEN;
use rise_fault_proof::eigenda::provider::ResponseBody;
use rise_fault_proof::eigenda::witness_run::split_cert_proof;
use rise_fault_proof::eigenda::witness_run::DataSource;
use rise_fault_proof::eigenda::witness_run::RunAction;
use rise_fault_proof::eigenda::witness_run::RunEvent;
use rise_fault_proof::eigenda::witness_run::RunState;
use rise_fault_proof::eigenda::witness_run::StdinParts;
use rise_fault_proof::eigenda::witness_run::WitnessRun;
use rise_fault_proof::witness::preimage_store::PreimageKeyType;

fn word(byte: u8) -> B256 {
    B256 { bytes: [byte; 32] }
}

#[test]
fn range_keys_hold_tag_and_bounds() {
    let key = get_cache_key(0x0102, u64::MAX - 1).bytes;
    let mut expected = [0u8; 32];
    expected[0] = 0xc1;
    expected[16..24].copy_from_slice(&0x0102u64.to_be_bytes());
    expected[24..32].copy_from_slice(&(u64::MAX - 1).to_be_bytes());
    assert_eq!(key, expected);
    expected[0] = 0xca;
    assert_eq!(encode_key(0x0102, u64::MAX - 1).bytes, expected);
    assert_ne!(get_cache_key(1, 2), get_cache_key(2, 1));
    assert_ne!(get_cache_key(1, 2), encode_key(1, 2));
}

#[test]
fn store_is_chosen_by_its_directory() {
    assert_eq!(store_mode(None), StoreMode::Unconfigured);
    assert_eq!(store_mode(Some(String::new())), StoreMode::Memory);
    assert_eq!(store_mode(Some("dir".to_string())), StoreMode::Disk("dir".to_string()));
}

#[test]
fn proofs_are_mocked_on_demand() {
    assert!(mock_mode(Some("true")));
    assert!(!mock_mode(Some("false")) && !mock_mode(Some("yes")) && !mock_mode(None));
}

#[test]
fn l1_head_stays_finalized() {
    assert_eq!(safe_l1_head_number(100, 1000), 120);
    assert_eq!(safe_l1_head_number(100, 110), 110);
    assert_eq!(safe_l1_head_number(100, 50), 50);
    assert_eq!(given_l1_head(Some(word(1)), word(2)), word(1));
    assert_eq!(given_l1_head(None, word(2)), word(2));
}

fn header_rlp(number: u64) -> Vec<u8> {
    let mut header = alloy_consensus::Header::default();
    header.number = number;
    alloy_rlp::encode(&header)
}

fn work() -> Precaching {
    Precaching { start_block: 10, end_block: 20, state: PrecacheState::LookingUp }
}

fn advance_to_inputs(work: &mut Precaching) {
    let found = work.step(PrecacheEvent::LookedUp { present: false });
    assert!(matches!(found, PrecacheAction::FetchHostArgs));
    assert!(matches!(work.step(PrecacheEvent::HostArgs), PrecacheAction::RunHost));
    let witness = PrecacheEvent::Witness { has_eigenda_witness: true };
    assert!(matches!(work.step(witness), PrecacheAction::LoadBootInfo));
    match work.step(PrecacheEvent::BootInfo { l1_head: word(0x33), l1_chain_id: 7 }) {
        PrecacheAction::GetPreimage(key) => {
            assert_eq!(key.key_type, PreimageKeyType::Keccak256);
            assert_eq!(key.data, [0x33; 31]);
        }
        other => panic!("{:?}", other),
    }
    match work.step(PrecacheEvent::HeaderRlp(header_rlp(555))) {
        PrecacheAction::MakeCanoeInputs { l1_chain_id, l1_head, l1_head_number } => {
            assert_eq!((l1_chain_id, l1_head, l1_head_number), (7, word(0x33), 555));
        }
        other => panic!("{:?}", other),
    }
}

#[test]
fn witness_is_made_and_stored() {
    let mut work = work();
    advance_to_inputs(&mut work);
    let stdin = work.step(PrecacheEvent::CanoeInputs { count: 2 });
    assert!(matches!(stdin, PrecacheAction::MakeCanoeStdin));
    match work.step(PrecacheEvent::CanoeStdin) {
        PrecacheAction::Store { key, with_canoe_stdin } => {
            assert_eq!(key, get_cache_key(10, 20));
            assert!(with_canoe_stdin);
        }
        other => panic!("{:?}", other),
    }
    match work.step(PrecacheEvent::Stored) {
        PrecacheAction::Done { key } => assert_eq!(key, get_cache_key(10, 20)),
        other => panic!("{:?}", other),
    }
    assert_eq!(work.state, PrecacheState::Stopped);
}

#[test]
fn witness_without_certificates_needs_no_proof() {
    let mut work = work();
    advance_to_inputs(&mut work);
    match work.step(PrecacheEvent::CanoeInputs { count: 0 }) {
        PrecacheAction::Store { with_canoe_stdin, .. } => assert!(!with_canoe_stdin),
        other => panic!("{:?}", other),
    }
}

#[test]
fn stored_witness_is_not_made_again() {
    let mut work = work();
    match work.step(PrecacheEvent::LookedUp { present: true }) {
        PrecacheAction::Done { key } => assert_eq!(key, get_cache_key(10, 20)),
        other => panic!("{:?}", other),
    }
}

#[test]
fn witness_making_fails() {
    let fails = |work: &mut Precaching, event, error| match work.step(event) {
        PrecacheAction::Fail(e) => assert_eq!(e, error),
        other => panic!("{:?}", other),
    };
    let mut first = work();
    first.step(PrecacheEvent::LookedUp { present: false });
    fails(&mut first, PrecacheEvent::Failed, HostError::Outside);
    let mut second = work();
    second.step(PrecacheEvent::LookedUp { present: false });
    second.step(PrecacheEvent::HostArgs);
    let empty = PrecacheEvent::Witness { has_eigenda_witness: false };
    fails(&mut second, empty, HostError::MissingEigenDAWitness);
    let mut third = work();
    third.step(PrecacheEvent::LookedUp { present: false });
    third.step(PrecacheEvent::HostArgs);
    third.step(PrecacheEvent::Witness { has_eigenda_witness: true });
    third.step(PrecacheEvent::BootInfo { l1_head: word(1), l1_chain_id: 7 });
    fails(&mut third, PrecacheEvent::HeaderRlp(vec![0]), HostError::BadHeader);
}

#[test]
fn host_without_storage_precaches_nothing() {
    let mut host = WitnessHost::new(&StoreMode::Unconfigured);
    let missing = HostError::StorageNotConfigured;
    assert_eq!(host.is_witness_precached(1, 2), Err(missing));
    assert_eq!(host.precache_witness(1, 2).unwrap_err(), missing);
    assert_eq!(host.range_proof_plan(), RangeProofPlan::Default);
}

#[test]
fn host_makes_each_witness_once() {
    let mut host = WitnessHost::new(&StoreMode::Memory);
    assert_eq!(host.range_proof_plan(), RangeProofPlan::Precached);
    let key = get_cache_key(1, 2);
    assert_eq!(host.is_witness_precached(1, 2), Ok(PrecachedLookup::AskStore { key }));
    assert!(matches!(host.precache_witness(1, 2), Ok(PrecacheStart::LookUp { .. })));
    assert_eq!(host.is_witness_precached(1, 2), Ok(PrecachedLookup::Begun));
    assert!(matches!(host.precache_witness(1, 2), Ok(PrecacheStart::LookUp { .. })));
    host.precached(1, 2);
    match host.precache_witness(1, 2) {
        Ok(PrecacheStart::Done { key: done }) => assert_eq!(done, key),
        other => panic!("{:?}", other),
    }
    assert!(matches!(host.precache_witness(1, 3), Ok(PrecacheStart::LookUp { .. })));
    host.precached(1, 3);
    assert!(matches!(host.precache_witness(1, 2), Ok(PrecacheStart::Done { .. })));
}

#[test]
fn stored_witness_has_to_be_there() {
    assert_eq!(stored_witness(Some(vec![1])), Ok(vec![1]));
    assert_eq!(stored_witness(None), Err(HostError::EntryDisappeared));
}

#[test]
fn witness_is_completed_with_a_compressed_proof() {
    let compressed = || Some(CanoeProof::Compressed(vec![1, 2]));
    assert_eq!(complete_witness(true, compressed()), Ok(Some(vec![1, 2])));
    assert_eq!(complete_witness(true, None), Ok(None));
    assert_eq!(complete_witness(true, Some(CanoeProof::Other)), Err(HostError::NotCompressed));
    assert_eq!(complete_witness(false, Some(CanoeProof::Other)), Err(HostError::NotCompressed));
    let missing = Err(HostError::MissingEigenDAWitness);
    assert_eq!(complete_witness(false, compressed()), missing);
    assert_eq!(complete_witness(false, None), missing);
}

#[test]
fn precacher_makes_each_witness_once() {
    let mut bare = WitnessPrecacher::new();
    assert_eq!(bare.ensure_witness_precached(1, 2), Err(PrecacherError::FetcherNotSet));
    assert_eq!(bare.completable(Some(vec![1])), Err(PrecacherError::FetcherNotSet));
    let mut precacher = WitnessPrecacher::new().with_fetcher();
    let key = encode_key(1, 2);
    assert_eq!(precacher.ensure_witness_precached(1, 2), Ok(PrecacherWork::Generate { key }));
    precacher.precached(1, 2);
    assert_eq!(precacher.ensure_witness_precached(1, 2), Ok(PrecacherWork::Done { key }));
    assert_eq!(precacher.completable(Some(vec![1])), Ok(vec![1]));
    assert_eq!(precacher.completable(None), Err(PrecacherError::MissingEigenDAWitness));
}

#[test]
fn payload_path_is_hexadecimal() {
    assert_eq!(payload_path(&[0x00, 0x1f, 0xab]), "get/001fab");
    assert_eq!(payload_path(&[]), "get/");
}

#[test]
fn payload_url_asks_for_the_encoded_payload() {
    let url = payload_url("http://proxy:3100/", &[0x01, 0xff]).unwrap();
    assert_eq!(
        url,
        "http://proxy:3100/get/01ff?commitment_mode=optimism_generic&return_encoded_payload=true"
    );
    let nested = payload_url("http://proxy/a/b", &[0x01]).unwrap();
    assert!(nested.starts_with("http://proxy/a/get/01?"));
    let failure = PayloadError::Critical(PayloadFailure::BuildUrl);
    assert_eq!(payload_url("not a url", &[]), Err(failure));
    assert_eq!(payload_url("data:text/plain,x", &[]), Err(failure));
}

#[test]
fn payload_url_has_a_greatest_length() {
    let too_long = vec![0xabu8; MAX_URL_LEN / 2];
    let failure = PayloadError::Critical(PayloadFailure::Request);
    assert_eq!(payload_url("http://proxy/", &too_long), Err(failure));
    let long = vec![0xabu8; MAX_URL_LEN / 2 - 100];
    assert!(payload_url("http://proxy/", &long).is_ok());
}

#[test]
fn responses_are_classified_by_status() {
    assert_eq!(classify_response(Some(200)), Ok(ResponseBody::Payload));
    assert_eq!(classify_response(Some(299)), Ok(ResponseBody::Payload));
    assert_eq!(classify_response(Some(418)), Ok(ResponseBody::DerivationError));
    assert_eq!(classify_response(Some(199)), Err(PayloadError::Temporary(199)));
    assert_eq!(classify_response(Some(300)), Err(PayloadError::Temporary(300)));
    assert_eq!(classify_response(Some(500)), Err(PayloadError::Temporary(500)));
    assert_eq!(classify_response(None), Err(PayloadError::Critical(PayloadFailure::Request)));
}

#[test]
fn payload_is_read_out_of_the_body() {
    let critical = PayloadError::Critical;
    assert_eq!(fetched_payload(FetchedBody::Payload(Some(vec![1]))), Ok(Some(vec![1])));
    assert_eq!(
        fetched_payload(FetchedBody::Payload(None)),
        Err(critical(PayloadFailure::ReadBody))
    );
    let error = |verdict| fetched_payload(FetchedBody::DerivationError(verdict));
    assert_eq!(error(Some(DerivationVerdict::InvalidCert)), Ok(None));
    assert_eq!(
        error(Some(DerivationVerdict::Other)),
        Err(critical(PayloadFailure::BadResponse))
    );
    assert_eq!(error(None), Err(critical(PayloadFailure::Deserialize)));
}

#[test]
fn valid_certificates_have_a_payload() {
    let temporary = PayloadError::Temporary(500);
    assert_eq!(get_validity(Ok(Some(vec![]))), Ok(true));
    assert_eq!(get_validity(Ok(None)), Ok(false));
    assert_eq!(get_validity(Err(temporary)), Err(temporary));
    assert_eq!(get_encoded_payload(Ok(Some(vec![1]))), Ok(vec![1]));
    assert_eq!(
        get_encoded_payload(Ok(None)),
        Err(PayloadError::Critical(PayloadFailure::InvalidCommitment))
    );
    assert_eq!(get_encoded_payload(Err(temporary)), Err(temporary));
}

#[test]
fn ethereum_run_collects_its_data() {
    let mut run = WitnessRun::new(DataSource::Ethereum);
    let inputs = RunEvent::Inputs { needs_pipeline: true };
    assert_eq!(run.step(inputs), RunAction::CreatePipeline);
    assert_eq!(run.step(RunEvent::Pipeline), RunAction::Execute);
    assert_eq!(run.step(RunEvent::Executed), RunAction::Collect);
    assert_eq!(run.step(RunEvent::Collected { payloads: 0 }), RunAction::Assemble);
    assert_eq!(run.state, RunState::Stopped);
}

#[test]
fn run_without_blocks_skips_the_pipeline() {
    let mut run = WitnessRun::new(DataSource::Ethereum);
    assert_eq!(run.step(RunEvent::Inputs { needs_pipeline: false }), RunAction::Collect);
    let mut failed = WitnessRun::new(DataSource::EigenDA);
    assert_eq!(failed.step(RunEvent::Failed), RunAction::Fail);
}

#[test]
fn eigenda_run_proves_every_payload() {
    let mut run = WitnessRun::new(DataSource::EigenDA);
    run.step(RunEvent::Inputs { needs_pipeline: false });
    let collected = RunEvent::Collected { payloads: 2 };
    assert_eq!(run.step(collected), RunAction::ProvePayload { index: 0 });
    let first = RunEvent::PayloadProof([1; 64]);
    assert_eq!(run.step(first), RunAction::ProvePayload { index: 1 });
    assert_eq!(run.step(RunEvent::PayloadProof([2; 64])), RunAction::ProveCerts);
    assert_eq!(run.payload_proofs, vec![[1; 64], [2; 64]]);
    let proved = RunEvent::CertProof { present: true };
    assert_eq!(run.step(proved), RunAction::AssembleWithProofs { has_cert_proof: true });
    let mut empty = WitnessRun::new(DataSource::EigenDA);
    empty.step(RunEvent::Inputs { needs_pipeline: false });
    assert_eq!(empty.step(RunEvent::Collected { payloads: 0 }), RunAction::ProveCerts);
}

#[test]
fn certificate_proof_goes_first() {
    let split = StdinParts { cert_proof: Some(vec![1]), reserialize: true };
    assert_eq!(split_cert_proof(Some(Some(vec![1]))), split);
    let whole = StdinParts { cert_proof: None, reserialize: false };
    assert_eq!(split_cert_proof(Some(None)), whole);
    assert_eq!(split_cert_proof(None), whole);
}
