use alloy_rlp::Decodable;
use rise_fault_proof::client::advance::keep_deposits;
use rise_fault_proof::client::advance::l2_block_info;
use rise_fault_proof::client::advance::output_preimage_key;
use rise_fault_proof::client::advance::safe_head_hash;
use rise_fault_proof::client::advance::Attributes;
use rise_fault_proof::client::advance::Derivation;
use rise_fault_proof::client::advance::DriverAction;
use rise_fault_proof::client::advance::DriverEvent;
use rise_fault_proof::client::advance::DriverFailure;
use rise_fault_proof::client::advance::DriverState;
use rise_fault_proof::client::advance::Genesis;
use rise_fault_proof::client::advance::TipCursor;
use rise_fault_proof::client::advance::DEPOSIT_TX_TYPE;
use rise_fault_proof::client::hardforks::HardForks;
use rise_fault_proof::common::blocks::BlockInfo;
use rise_fault_proof::common::blocks::BlockNumHash;
use rise_fault_proof::common::blocks::L2BlockInfo;
use rise_fault_proof::common::fixed_bytes::B256;
use rise_fault_proof::range_optimizer::OptimizerAction;
use rise_fault_proof::range_optimizer::PipelineStep;
use rise_fault_proof::range_optimizer::RangeOptimizer;
use rise_fault_proof::rpc::el::header_from_raw;
use rise_fault_proof::rpc::el::Header;
use rise_fault_proof::witness::preimage_store::PreimageKeyType;

fn word(byte: u8) -> B256 {
    B256 { bytes: [byte; 32] }
}

fn forks(holocene_time: Option<u64>, interop_time: Option<u64>) -> HardForks {
    HardForks { holocene_time, isthmus_time: None, jovian_time: None, interop_time }
}

fn header(number: u64) -> Header {
    let mut header = alloy_consensus::Header::default();
    header.number = number;
    header.timestamp = 77;
    header.parent_hash = alloy_primitives::B256::repeat_byte(0x11);
    header_from_raw(Some(alloy_rlp::encode(&header))).unwrap()
}

fn genesis() -> Genesis {
    Genesis {
        l1: BlockNumHash { number: 5, hash: word(0x22) },
        l2: BlockNumHash { number: 8, hash: header(8).hash_slow() },
    }
}

fn attributes(timestamp: u64, txs: &[&[u8]]) -> Attributes {
    Attributes { timestamp, transactions: Some(txs.iter().map(|tx| tx.to_vec()).collect()) }
}

fn origin() -> BlockInfo {
    BlockInfo { hash: word(1), number: 6, parent_hash: word(2), timestamp: 3 }
}

fn l2_block(number: u64) -> L2BlockInfo {
    L2BlockInfo {
        block_info: BlockInfo { hash: word(4), number, parent_hash: word(5), timestamp: 6 },
        l1_origin: BlockNumHash { number: 7, hash: word(8) },
        seq_num: 9,
    }
}

fn safe_head(number: u64) -> DriverEvent {
    DriverEvent::SafeHead { l2_safe_head: l2_block(number), output_root: word(number as u8) }
}

fn finish(number: u64) -> DriverAction {
    DriverAction::Finish { l2_safe_head: l2_block(number), output_root: word(number as u8) }
}

fn step(derivation: &mut Derivation, event: DriverEvent) -> DriverAction {
    derivation.step(event, &forks(Some(100), None), &genesis())
}

fn executing(timestamp: u64, txs: &[&[u8]]) -> Derivation {
    let mut derivation = Derivation::new(Some(9));
    assert_eq!(step(&mut derivation, safe_head(7)), DriverAction::ProducePayload);
    let payload = DriverEvent::Payload(attributes(timestamp, txs));
    assert_eq!(step(&mut derivation, payload), DriverAction::ExecutePayload);
    derivation
}

#[test]
fn hash_is_the_last_word_of_an_output() {
    let mut output = [0u8; 128];
    for (i, byte) in output.iter_mut().enumerate() {
        *byte = i as u8;
    }
    let hash = safe_head_hash(&output);
    assert_eq!(hash.bytes[..], output[96..]);
}

#[test]
fn output_is_found_under_the_hash_of_its_root() {
    let mut root = word(0x31);
    root.bytes[0] = 0x99;
    let key = output_preimage_key(root);
    assert_eq!(key.key_type, PreimageKeyType::Keccak256);
    assert_eq!(key.data, [0x31; 31]);
}

#[test]
fn deposits_have_their_own_type() {
    assert_eq!(DEPOSIT_TX_TYPE, op_alloy_consensus::OpTxType::Deposit as u8);
}

#[test]
fn only_deposits_are_kept() {
    let given = attributes(5, &[&[0x7e, 1], &[], &[2, 3], &[0x7e], &[0x7f]]);
    let kept = attributes(5, &[&[0x7e, 1], &[0x7e]]);
    assert_eq!(keep_deposits(&given), kept);
    assert_eq!(keep_deposits(&kept), kept);
    let none = Attributes { timestamp: 5, transactions: None };
    assert_eq!(keep_deposits(&none), none);
}

#[test]
fn derivation_finishes_at_its_target() {
    let mut derivation = Derivation::new(Some(9));
    assert_eq!(step(&mut derivation, safe_head(9)), finish(9));
    assert_eq!(derivation.state, DriverState::Stopped);
    let mut derivation = Derivation::new(Some(9));
    assert_eq!(step(&mut derivation, safe_head(10)), finish(10));
    let mut derivation = Derivation::new(None);
    let head = safe_head(u64::MAX);
    assert_eq!(step(&mut derivation, head), DriverAction::ProducePayload);
}

#[test]
fn derivation_halts_when_the_data_ends() {
    let mut derivation = Derivation::new(Some(9));
    step(&mut derivation, safe_head(7));
    assert_eq!(step(&mut derivation, DriverEvent::EndOfSource), DriverAction::ReadSafeHead);
    assert_eq!(derivation.target, Some(7));
    assert_eq!(step(&mut derivation, safe_head(7)), finish(7));
}

#[test]
fn data_must_not_end_while_interop_is_active() {
    let mut derivation = Derivation::new(Some(9));
    step(&mut derivation, safe_head(7));
    let action = derivation.step(DriverEvent::EndOfSource, &forks(None, Some(7)), &genesis());
    assert_eq!(action, DriverAction::Fail(DriverFailure::EndOfSource));
    let mut derivation = Derivation::new(None);
    step(&mut derivation, safe_head(7));
    let action = derivation.step(DriverEvent::EndOfSource, &forks(None, Some(8)), &genesis());
    assert_eq!(action, DriverAction::ReadSafeHead);
    assert_eq!(derivation.target, None);
}

#[test]
fn pipeline_errors_end_the_derivation() {
    let mut derivation = Derivation::new(Some(9));
    step(&mut derivation, safe_head(7));
    assert_eq!(
        step(&mut derivation, DriverEvent::PipelineError),
        DriverAction::Fail(DriverFailure::Pipeline)
    );
}

#[test]
fn failed_block_is_discarded_before_holocene() {
    let mut derivation = executing(99, &[&[0x7e]]);
    assert_eq!(step(&mut derivation, DriverEvent::ExecutorError), DriverAction::ReadSafeHead);
    assert_eq!(derivation.state, DriverState::AtTip);
}

#[test]
fn failed_block_is_retried_with_its_deposits() {
    let mut derivation = executing(100, &[&[0x7e, 1], &[2]]);
    assert_eq!(step(&mut derivation, DriverEvent::ExecutorError), DriverAction::FlushChannel);
    assert_eq!(step(&mut derivation, DriverEvent::Flushed), DriverAction::ExecutePayload);
    let retried = DriverState::Retrying { attributes: attributes(100, &[&[0x7e, 1]]) };
    assert_eq!(derivation.state, retried);
    assert_eq!(
        step(&mut derivation, DriverEvent::ExecutorError),
        DriverAction::Fail(DriverFailure::Executor)
    );
    let mut derivation = executing(100, &[&[2]]);
    step(&mut derivation, DriverEvent::ExecutorError);
    assert_eq!(
        step(&mut derivation, DriverEvent::PipelineError),
        DriverAction::Fail(DriverFailure::Pipeline)
    );
}

#[test]
fn later_upgrades_bring_holocene() {
    for forks in [
        HardForks { isthmus_time: Some(50), ..forks(None, None) },
        HardForks { jovian_time: Some(50), ..forks(None, None) },
        forks(None, Some(50)),
    ] {
        let mut derivation = executing(50, &[]);
        let action = derivation.step(DriverEvent::ExecutorError, &forks, &genesis());
        assert_eq!(action, DriverAction::FlushChannel);
        let mut derivation = executing(49, &[]);
        let action = derivation.step(DriverEvent::ExecutorError, &forks, &genesis());
        assert_eq!(action, DriverAction::ReadSafeHead);
    }
}

#[test]
fn transactions_have_to_decode() {
    let bad: &[u8] = &[0x81, 0x01];
    let mut derivation = executing(5, &[&deposit_tx(), bad, &[]]);
    let error = op_alloy_consensus::OpTxEnvelope::decode(&mut &bad[..]).unwrap_err();
    assert_ne!(
        error,
        op_alloy_consensus::OpTxEnvelope::decode(&mut &[0u8; 0][..]).unwrap_err()
    );
    assert_eq!(
        step(&mut derivation, DriverEvent::Executed(header(8))),
        DriverAction::Fail(DriverFailure::Rlp(error.to_string()))
    );
}

#[test]
fn executed_block_becomes_the_tip() {
    let mut derivation = executing(5, &[]);
    let executed = DriverEvent::Executed(header(8));
    assert_eq!(step(&mut derivation, executed), DriverAction::ReadOrigin);
    let located = DriverEvent::Origin(Some(origin()));
    assert_eq!(step(&mut derivation, located), DriverAction::ComputeOutputRoot);
    let action = step(&mut derivation, DriverEvent::OutputRoot(word(9)));
    let tip = TipCursor {
        l2_safe_head: L2BlockInfo {
            block_info: BlockInfo {
                hash: header(8).hash_slow(),
                number: 8,
                parent_hash: word(0x11),
                timestamp: 77,
            },
            l1_origin: BlockNumHash { number: 5, hash: word(0x22) },
            seq_num: 0,
        },
        l2_safe_head_header: header(8),
        l2_safe_head_output_root: word(9),
    };
    assert_eq!(action, DriverAction::Advance { origin: origin(), tip });
    assert_eq!(derivation.state, DriverState::AtTip);
}

#[test]
fn executed_block_needs_an_origin() {
    let mut derivation = executing(5, &[]);
    step(&mut derivation, DriverEvent::Executed(header(8)));
    assert_eq!(
        step(&mut derivation, DriverEvent::Origin(None)),
        DriverAction::Fail(DriverFailure::MissingOrigin)
    );
}

#[test]
fn executed_block_has_to_be_an_l2_block() {
    let mut derivation = executing(5, &[]);
    step(&mut derivation, DriverEvent::Executed(header(9)));
    let error = kona_protocol::FromBlockError::MissingL1InfoDeposit(
        header(9).hash_slow().bytes.into(),
    );
    assert_eq!(
        step(&mut derivation, DriverEvent::Origin(Some(origin()))),
        DriverAction::Fail(DriverFailure::FromBlock(error.to_string()))
    );
    assert_eq!(l2_block_info(&header(9), &vec![], &genesis()), Err(error.to_string()));
    let elsewhere = Genesis { l2: BlockNumHash { number: 9, hash: word(1) }, ..genesis() };
    assert_eq!(
        l2_block_info(&header(9), &vec![], &elsewhere),
        Err(kona_protocol::FromBlockError::InvalidGenesisHash.to_string())
    );
}

#[test]
fn output_root_has_to_be_computed() {
    let mut derivation = executing(5, &[]);
    step(&mut derivation, DriverEvent::Executed(header(8)));
    step(&mut derivation, DriverEvent::Origin(Some(origin())));
    assert_eq!(
        step(&mut derivation, DriverEvent::ExecutorError),
        DriverAction::Fail(DriverFailure::Executor)
    );
}

fn deposit_tx() -> Vec<u8> {
    let calldata = {
        // setL1BlockValuesEcotone: selector, then packed fields.
        let mut data = vec![0x44, 0x0a, 0x5e, 0x20];
        data.extend([0u8; 4]);
        data.extend([0u8; 4]);
        data.extend(3u64.to_be_bytes());
        data.extend(1_700_000_000u64.to_be_bytes());
        data.extend(1234u64.to_be_bytes());
        data.extend([0u8; 32]);
        data.extend([0u8; 32]);
        data.extend([0xab; 32]);
        data.extend([0u8; 32]);
        data
    };
    let deposit = op_alloy_consensus::TxDeposit { input: calldata.into(), ..Default::default() };
    let envelope = op_alloy_consensus::OpTxEnvelope::from(deposit);
    alloy_rlp::encode(&envelope)
}

#[test]
fn l1_origin_is_read_out_of_the_first_deposit() {
    let info = l2_block_info(&header(9), &vec![deposit_tx()], &genesis()).unwrap();
    assert_eq!(info.l1_origin, BlockNumHash { number: 1234, hash: word(0xab) });
    assert_eq!(info.seq_num, 3);
    assert_eq!(info.block_info.number, 9);
    assert!(l2_block_info(&header(9), &vec![vec![1, 2]], &genesis()).is_err());
}

#[test]
fn range_ends_with_the_l1_block() {
    let mut range = RangeOptimizer::new(100);
    assert_eq!(range.first_action(), OptimizerAction::ResetAndStep { l2_block_number: 100 });
    let next = |range: &mut RangeOptimizer, step| range.on_step(step);
    let stay = OptimizerAction::Step { l2_block_number: 100 };
    assert_eq!(next(&mut range, PipelineStep::AdvancedOrigin), stay);
    assert_eq!(next(&mut range, PipelineStep::Temporary), stay);
    assert_eq!(
        next(&mut range, PipelineStep::Reset),
        OptimizerAction::ResetAndStep { l2_block_number: 100 }
    );
    let missing = PipelineStep::PreparedAttributes { available: false };
    assert_eq!(next(&mut range, missing), stay);
    let prepared = PipelineStep::PreparedAttributes { available: true };
    assert_eq!(next(&mut range, prepared), OptimizerAction::Step { l2_block_number: 101 });
    assert_eq!(next(&mut range, prepared), OptimizerAction::Step { l2_block_number: 102 });
    assert_eq!(
        next(&mut range, PipelineStep::AdvancedOrigin),
        OptimizerAction::Done { l2_block_number: 102 }
    );
    assert_eq!(next(&mut range, PipelineStep::Critical), OptimizerAction::Fail);
}
