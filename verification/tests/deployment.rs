use rise_fault_proof::commands::propose::ProposeArgs;
use rise_fault_proof::commands::prover::has_misleading_extension;
use rise_fault_proof::commands::prover::l1_head_of;
use rise_fault_proof::commands::prover::proof_inputs;
use rise_fault_proof::commands::prover::ProverError;
use rise_fault_proof::common::blocks::BlockInfo;
use rise_fault_proof::common::blocks::BlockNumHash;
use rise_fault_proof::common::blocks::L2BlockInfo;
use rise_fault_proof::common::contract::ClaimData;
use rise_fault_proof::common::contract::GameStatus;
use rise_fault_proof::common::fixed_bytes::Address;
use rise_fault_proof::common::fixed_bytes::B256;
use rise_fault_proof::common::primitives::Duration;
use rise_fault_proof::components::app_driver::AppDriver;
use rise_fault_proof::components::app_driver::AppDriverConfig;
use rise_fault_proof::components::run_loop::challenger_action;
use rise_fault_proof::components::run_loop::creator_action;
use rise_fault_proof::components::run_loop::fetcher_action;
use rise_fault_proof::components::run_loop::fetcher_plan;
use rise_fault_proof::components::run_loop::fetches_again_at_once;
use rise_fault_proof::components::run_loop::tx_manager_action;
use rise_fault_proof::components::run_loop::FetcherAction;
use rise_fault_proof::components::run_loop::FetcherEvent;
use rise_fault_proof::components::run_loop::FetcherPlan;
use rise_fault_proof::components::run_loop::FetcherRequest;
use rise_fault_proof::components::run_loop::LoopAction;
use rise_fault_proof::components::run_loop::Received;
use rise_fault_proof::components::tx_manager::select_sender;
use rise_fault_proof::components::tx_manager::SignerArgs;
use rise_fault_proof::components::tx_manager::TxManagerConfig;
use rise_fault_proof::components::tx_manager::TxManagerError;
use rise_fault_proof::components::tx_manager::TxManagerSenderRole;
use rise_fault_proof::config::fault_dispute_game::block_number_hex;
use rise_fault_proof::config::fault_dispute_game::blocks_for_finality;
use rise_fault_proof::config::fault_dispute_game::calculated_start;
use rise_fault_proof::config::fault_dispute_game::search_start;
use rise_fault_proof::config::fault_dispute_game::FdgEnv;
use rise_fault_proof::config::fault_dispute_game::FdgVariable;
use rise_fault_proof::config::fault_dispute_game::SharedConfig;
use rise_fault_proof::monitor::check_game_type;
use rise_fault_proof::monitor::Game;
use rise_fault_proof::monitor::Monitor;
use rise_fault_proof::monitor::UnsupportedGameType;
use rise_fault_proof::proving::host::BootKeys;
use rise_fault_proof::proving::host::HintKind;
use rise_fault_proof::proving::host::HintRoute;
use rise_fault_proof::proving::host::RiseCfg;
use rise_fault_proof::proving::host::RiseHintHandler;
use rise_fault_proof::rpc::cl::OutputResponse;
use rise_fault_proof::rpc::cl::SyncStatus;

fn word(byte: u8) -> B256 {
    B256 { bytes: [byte; 32] }
}

fn unset() -> FdgEnv {
    FdgEnv {
        game_type: None,
        dispute_game_finality_delay_seconds: None,
        max_challenge_duration: None,
        max_prove_duration: None,
        fallback_timeout_fp_secs: None,
        initial_bond_wei: None,
        challenger_bond_wei: None,
        permissionless_mode: None,
        optimism_portal2_address: None,
        starting_l2_block_number: None,
    }
}

fn set(value: &str) -> Option<String> {
    Some(value.to_string())
}

#[test]
fn unset_variables_have_defaults() {
    let settings = unset().read().unwrap();
    assert_eq!(settings.game_type, 42);
    assert_eq!(settings.dispute_game_finality_delay_seconds, 604_800);
    assert_eq!(settings.max_challenge_duration, 604_800);
    assert_eq!(settings.max_prove_duration, 86_400);
    assert_eq!(settings.fallback_timeout_fp_secs, 1_209_600);
    assert_eq!(settings.initial_bond_wei, 1_000_000_000_000_000);
    assert_eq!(settings.challenger_bond_wei, 1_000_000_000_000_000);
    assert!(!settings.permissionless_mode);
    assert_eq!(settings.optimism_portal2_address, format!("0x{}", "0".repeat(40)));
    assert_eq!(settings.starting_l2_block_number, None);
}

#[test]
fn variables_are_read() {
    let env = FdgEnv {
        game_type: set("7"),
        dispute_game_finality_delay_seconds: set("1"),
        max_challenge_duration: set("2"),
        max_prove_duration: set("3"),
        fallback_timeout_fp_secs: set("4"),
        initial_bond_wei: set("5"),
        challenger_bond_wei: set("6"),
        permissionless_mode: set("true"),
        optimism_portal2_address: set("0xabc"),
        starting_l2_block_number: set("99"),
    };
    let settings = env.read().unwrap();
    assert_eq!(settings.game_type, 7);
    assert_eq!(settings.dispute_game_finality_delay_seconds, 1);
    assert_eq!(settings.max_challenge_duration, 2);
    assert_eq!(settings.max_prove_duration, 3);
    assert_eq!(settings.fallback_timeout_fp_secs, 4);
    assert_eq!(settings.initial_bond_wei, 5);
    assert_eq!(settings.challenger_bond_wei, 6);
    assert!(settings.permissionless_mode);
    assert_eq!(settings.optimism_portal2_address, "0xabc");
    assert_eq!(settings.starting_l2_block_number, Some(99));
}

#[test]
fn unreadable_variables_are_named() {
    let bad = |edit: fn(&mut FdgEnv)| {
        let mut env = unset();
        edit(&mut env);
        env.read().unwrap_err()
    };
    assert_eq!(bad(|e| e.game_type = set("x")), FdgVariable::GameType);
    assert_eq!(bad(|e| e.game_type = set("4294967296")), FdgVariable::GameType);
    assert_eq!(
        bad(|e| e.dispute_game_finality_delay_seconds = set("-1")),
        FdgVariable::DisputeGameFinalityDelaySeconds
    );
    assert_eq!(bad(|e| e.max_challenge_duration = set("")), FdgVariable::MaxChallengeDuration);
    assert_eq!(bad(|e| e.max_prove_duration = set("1d")), FdgVariable::MaxProveDuration);
    assert_eq!(
        bad(|e| e.fallback_timeout_fp_secs = set("1.5")),
        FdgVariable::FallbackTimeoutFpSecs
    );
    assert_eq!(bad(|e| e.initial_bond_wei = set("one")), FdgVariable::InitialBondWei);
    assert_eq!(
        bad(|e| e.challenger_bond_wei = set("18446744073709551616")),
        FdgVariable::ChallengerBondWei
    );
    assert_eq!(bad(|e| e.permissionless_mode = set("yes")), FdgVariable::PermissionlessMode);
    assert_eq!(
        bad(|e| e.starting_l2_block_number = set("0x10")),
        FdgVariable::StartingL2BlockNumber
    );
    let first = bad(|e| {
        e.max_prove_duration = set("x");
        e.game_type = set("x");
    });
    assert_eq!(first, FdgVariable::GameType);
}

fn shared() -> SharedConfig {
    SharedConfig {
        aggregation_vkey: "agg".to_string(),
        range_vkey_commitment: "range".to_string(),
        rollup_config_hash: "rollup".to_string(),
        use_sp1_mock_verifier: true,
        verifier_address: "verifier".to_string(),
    }
}

#[test]
fn deployment_is_put_together() {
    let config = unset().read().unwrap().into_config(
        shared(),
        vec!["p".to_string()],
        vec!["c".to_string(), "d".to_string()],
        17,
        "root".to_string(),
    );
    assert_eq!(config.proposer_addresses, vec!["p"]);
    assert_eq!(config.challenger_addresses, vec!["c", "d"]);
    assert_eq!(config.starting_l2_block_number, 17);
    assert_eq!(config.starting_root, "root");
    assert_eq!(config.aggregation_vkey, "agg");
    assert_eq!(config.range_vkey_commitment, "range");
    assert_eq!(config.rollup_config_hash, "rollup");
    assert_eq!(config.verifier_address, "verifier");
    assert!(config.use_sp1_mock_verifier);
    let open = FdgEnv { permissionless_mode: set("true"), ..unset() };
    let config = open.read().unwrap().into_config(
        shared(),
        vec!["p".to_string()],
        vec!["c".to_string()],
        17,
        "root".to_string(),
    );
    assert!(config.proposer_addresses.is_empty() && config.challenger_addresses.is_empty());
}

#[test]
fn start_lies_before_the_finality_delay() {
    let blocks = blocks_for_finality(604_800, 2);
    assert_eq!(blocks, 302_400);
    assert_eq!(blocks_for_finality(5, 2), 2);
    assert_eq!(search_start(1_000_000, blocks), 697_600);
    assert_eq!(search_start(1_000, blocks), 0);
    assert_eq!(calculated_start(Some(1_000_000), 697_600, blocks), 697_600);
    assert_eq!(calculated_start(None, 697_600, blocks), 697_600);
    assert_eq!(calculated_start(Some(5), 0, blocks), 0);
}

#[test]
fn given_start_wins_over_the_calculated_one() {
    let settings = unset().read().unwrap();
    assert_eq!(settings.search_from(1_000_000, 2), Some(697_600));
    assert_eq!(settings.starting_block(1_000_000, 2, None), 697_600);
    assert_eq!(settings.starting_block(1_000_000, 2, Some(1_000_000)), 697_600);
    assert_eq!(settings.starting_block(1_000_000, 2, Some(900_000)), 597_600);
    assert_eq!(settings.starting_block(1_000, 2, None), 0);
    let env = FdgEnv { starting_l2_block_number: set("17"), ..unset() };
    let settings = env.read().unwrap();
    assert_eq!(settings.search_from(1_000_000, 0), None);
    assert_eq!(settings.starting_block(1_000_000, 0, Some(5)), 17);
}

#[test]
fn block_numbers_are_written_in_hexadecimal() {
    for n in [0, 1, 9, 10, 15, 16, 255, 256, 4096, 0xdead_beef, u64::MAX] {
        assert_eq!(block_number_hex(n), format!("0x{n:x}"));
    }
}

fn recorded_game() -> Game {
    Game {
        address: Address { bytes: [1; 20] },
        starting_block_number: 1,
        l2_block_number: 2,
        root_claim: word(3),
        was_respected_game_type_when_created: true,
        status: GameStatus::IN_PROGRESS,
        claim_data: ClaimData::default(),
        challenger_bond: word(4),
        bond_distribution_mode: 0,
    }
}

#[test]
fn monitor_records_from_the_newest_game_on() {
    let mut monitor = Monitor::new();
    let mut order = Vec::new();
    while let Some(i) = monitor.first_unsynced(4) {
        order.push(i);
        monitor.record(i, recorded_game());
    }
    assert_eq!(order, vec![3, 2, 1, 0]);
    assert_eq!(monitor.first_unsynced(6), Some(5));
    monitor.record(5, recorded_game());
    assert_eq!(monitor.first_unsynced(6), Some(4));
    assert_eq!(Monitor::new().first_unsynced(0), None);
    assert_eq!(Monitor::idle_secs(true), 0);
    assert_eq!(Monitor::idle_secs(false), 30);
}

#[test]
fn monitor_records_one_type_of_games() {
    assert_eq!(check_game_type(42), Ok(()));
    assert_eq!(check_game_type(1), Err(UnsupportedGameType { game_type: 1 }));
}

#[test]
fn driver_fetches_at_once_while_there_is_progress() {
    let interval = Duration { secs: 60, nanos: 0 };
    let zero = Duration { secs: 0, nanos: 0 };
    let mut driver = AppDriver::new(AppDriverConfig { fetch_interval: interval });
    assert_eq!(driver.delay(), zero);
    driver.note_reply(Some(false));
    assert_eq!(driver.delay(), interval);
    driver.note_reply(Some(true));
    assert_eq!(driver.delay(), zero);
    driver.note_reply(None);
    assert_eq!(driver.delay(), interval);
}

#[test]
fn components_act_on_what_they_receive() {
    assert_eq!(challenger_action(Received::Cancelled), LoopAction::Stop);
    assert_eq!(challenger_action(Received::Closed), LoopAction::Stop);
    assert_eq!(challenger_action(Received::Lagged), LoopAction::Wait);
    assert_eq!(challenger_action(Received::Message), LoopAction::Work);
    assert_eq!(creator_action(Received::Cancelled), LoopAction::Stop);
    assert_eq!(creator_action(Received::Closed), LoopAction::Work);
    assert_eq!(creator_action(Received::Lagged), LoopAction::Work);
    assert_eq!(creator_action(Received::Message), LoopAction::Work);
    assert_eq!(tx_manager_action(Received::Message), LoopAction::Work);
    assert_eq!(tx_manager_action(Received::Closed), LoopAction::Stop);
    assert_eq!(tx_manager_action(Received::Cancelled), LoopAction::Stop);
    assert_eq!(fetcher_action(FetcherEvent::Cancelled), FetcherAction::Stop);
    assert_eq!(fetcher_action(FetcherEvent::Closed), FetcherAction::Stop);
    assert_eq!(fetcher_action(FetcherEvent::Tick), FetcherAction::Idle);
    assert_eq!(fetcher_action(FetcherEvent::Request), FetcherAction::Handle);
    assert_eq!(fetcher_plan(FetcherRequest::Sync), FetcherPlan::FetchBatch);
    assert_eq!(fetcher_plan(FetcherRequest::SyncOne(3)), FetcherPlan::FetchGame(3));
    assert!(fetches_again_at_once(Some(true)));
    assert!(!fetches_again_at_once(Some(false)) && !fetches_again_at_once(None));
}

#[test]
fn senders_are_selected_by_role() {
    let (proposer, challenger) = ("p", "c");
    let role = TxManagerSenderRole::Proposer;
    assert_eq!(select_sender(role, Some(&proposer), Some(&challenger)), Ok(&"p"));
    assert_eq!(
        select_sender(role, None, Some(&challenger)),
        Err(TxManagerError::NotConfigured(role))
    );
    let role = TxManagerSenderRole::Challenger;
    assert_eq!(select_sender(role, Some(&proposer), Some(&challenger)), Ok(&"c"));
    assert_eq!(
        select_sender(role, Some(&proposer), None),
        Err(TxManagerError::NotConfigured(role))
    );
}

#[test]
fn signers_need_a_key() {
    let config = |proposer_signer_args, challenger_signer_args| TxManagerConfig {
        num_confirmations: None,
        timeout: None,
        proposer_signer_args,
        challenger_signer_args,
    };
    let with_key = Some(SignerArgs { private_key: Some(word(1)) });
    let without_key = Some(SignerArgs { private_key: None });
    assert_eq!(config(None, None).signing_keys(), Ok((None, None)));
    assert_eq!(config(with_key, None).signing_keys(), Ok((Some(word(1)), None)));
    assert_eq!(config(None, with_key).signing_keys(), Ok((None, Some(word(1)))));
    assert_eq!(
        config(without_key, without_key).signing_keys(),
        Err(TxManagerError::NoSigner(TxManagerSenderRole::Proposer))
    );
    assert_eq!(
        config(with_key, without_key).signing_keys(),
        Err(TxManagerError::NoSigner(TxManagerSenderRole::Challenger))
    );
}

#[test]
fn proposal_has_defaults() {
    let args = ProposeArgs {
        game_type: 42,
        parent_game_index: None,
        claim_block: 0x0102,
        output_root: None,
    };
    assert!(args.needs_output_root());
    let request = args.request(word(5));
    assert_eq!(request.output_root, word(5));
    let mut extra_data = vec![0u8; 32];
    extra_data[30..].copy_from_slice(&[1, 2]);
    extra_data.extend([0xff; 4]);
    assert_eq!(request.extra_data, extra_data);
    let args = ProposeArgs { parent_game_index: Some(3), output_root: Some(word(6)), ..args };
    assert!(!args.needs_output_root());
    let request = args.request(word(5));
    assert_eq!(request.output_root, word(6));
    assert_eq!(request.extra_data[32..], [0, 0, 0, 3]);
}

fn output(number: u64, root: u8, hash: u8) -> OutputResponse {
    let block = |number| BlockInfo { hash: word(hash), number, parent_hash: word(0), timestamp: 0 };
    OutputResponse {
        version: word(0),
        output_root: word(root),
        block_ref: L2BlockInfo {
            block_info: block(number),
            l1_origin: BlockNumHash { number: 0, hash: word(0) },
            seq_num: 0,
        },
        withdrawal_storage_root: word(0),
        state_root: word(0),
        sync_status: SyncStatus {
            current_l1: block(0),
            head_l1: block(0),
            safe_l1: block(0),
            finalized_l1: block(0),
        },
    }
}

fn cfg() -> RiseCfg {
    let l1_head = l1_head_of(Some(BlockNumHash { number: 1, hash: word(1) })).unwrap();
    let (agreed, claimed) = (output(10, 2, 3), output(20, 4, 5));
    proof_inputs(l1_head, &agreed, 10, &claimed, 20, 99, vec![7], Some(vec![8])).unwrap()
}

#[test]
fn proof_inputs_are_put_together() {
    let cfg = cfg();
    assert_eq!(cfg.l1_head, word(1));
    assert_eq!(cfg.agreed_l2_output_root, word(2));
    assert_eq!(cfg.agreed_l2_head_hash, word(3));
    assert_eq!(cfg.claimed_l2_output_root, word(4));
    assert_eq!(cfg.claimed_l2_block_number, 20);
    assert_eq!(cfg.l2_chain_id, 99);
    let (agreed, claimed) = (output(10, 2, 3), output(20, 4, 5));
    assert_eq!(l1_head_of(None), Err(ProverError::MissingL1Safe));
    let missing = proof_inputs(word(1), &agreed, 10, &claimed, 20, 99, vec![], None);
    assert_eq!(missing, Err(ProverError::MissingL1Config));
}

#[test]
fn local_inputs_stand_under_their_keys() {
    let keys = BootKeys {
        l1_head: 1,
        l2_output_root: 2,
        l2_claim: 3,
        l2_claim_block_number: 4,
        l2_chain_id: 5,
        l2_rollup_config: 6,
        l1_config: 0x0700,
    };
    let store = cfg().get_local_key_value_store(&keys);
    let idents = [1, 2, 3, 4, 5, 6, 0x0700];
    for (entry, ident) in store.iter().zip(idents) {
        let key: [u8; 32] = kona_preimage::PreimageKey::new_local(ident).into();
        assert_eq!(entry.0, B256 { bytes: key });
    }
    assert_eq!(store[0].0.bytes[0], 1);
    assert_eq!(store[6].0.bytes[30..], [7, 0]);
    let values: Vec<&[u8]> = store.iter().map(|entry| entry.1.as_slice()).collect();
    assert_eq!(values[0], [1; 32]);
    assert_eq!(values[1], [2; 32]);
    assert_eq!(values[2], [4; 32]);
    assert_eq!(values[3], 20u64.to_be_bytes());
    assert_eq!(values[4], 99u64.to_be_bytes());
    assert_eq!(values[5], [7]);
    assert_eq!(values[6], [8]);
}

#[test]
fn host_options_serve_the_proof() {
    let legacy = cfg().get_legacy_cfg();
    assert_eq!(legacy.l1_head, word(1));
    assert_eq!(legacy.agreed_l2_head_hash, word(3));
    assert_eq!(legacy.claimed_l2_block_number, 20);
    assert_eq!(legacy.l2_chain_id, Some(99));
    assert!(legacy.server && !legacy.native && legacy.enable_experimental_witness_endpoint);
}

#[test]
fn hints_are_routed_by_their_kind() {
    assert_eq!(RiseHintHandler.route(HintKind::EigenDACert), HintRoute::EigenDA);
    assert_eq!(RiseHintHandler.route(HintKind::Original), HintRoute::SingleChain);
}

#[test]
fn misleading_extensions_are_noticed() {
    assert!(has_misleading_extension(Some("json")));
    assert!(!has_misleading_extension(Some("cbor")));
    assert!(!has_misleading_extension(None));
}
