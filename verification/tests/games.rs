use std::collections::BTreeMap;

use rise_fault_proof::common::contract::ClaimData;
use rise_fault_proof::common::contract::GameStatus;
use rise_fault_proof::common::contract::ProposalStatus;
use rise_fault_proof::common::fixed_bytes::Address;
use rise_fault_proof::common::fixed_bytes::B256;
use rise_fault_proof::common::primitives::games_at;
use rise_fault_proof::common::primitives::pick_random_games;
use rise_fault_proof::common::primitives::AnchorRootSnapshot;
use rise_fault_proof::common::primitives::GameRangeInclusive;
use rise_fault_proof::common::primitives::GameSnapshot;
use rise_fault_proof::common::state::State;
use rise_fault_proof::components::game_challenger::blocks_to_refresh;
use rise_fault_proof::components::game_challenger::claim_blocks_of;
use rise_fault_proof::components::game_challenger::get_output_root;
use rise_fault_proof::components::game_challenger::next_games_to_challenge;
use rise_fault_proof::components::game_challenger::note_output_roots;
use rise_fault_proof::components::game_creator::find_created_event;
use rise_fault_proof::components::game_creator::find_created_game;
use rise_fault_proof::components::game_creator::get_canonical_head;
use rise_fault_proof::components::game_creator::range_of_possible_canonical_head;
use rise_fault_proof::components::game_creator::CreateDecision;
use rise_fault_proof::components::game_creator::CreateGameError;
use rise_fault_proof::components::game_creator::CreationPlan;
use rise_fault_proof::components::game_creator::GameCreation;
use rise_fault_proof::components::game_fetcher::any_changed;
use rise_fault_proof::components::game_fetcher::assemble_snapshot;
use rise_fault_proof::components::game_fetcher::next_games_to_fetch;
use rise_fault_proof::components::game_fetcher::plan_fetch;
use rise_fault_proof::components::game_fetcher::store_fetched_games;
use rise_fault_proof::components::game_fetcher::store_metadata;
use rise_fault_proof::components::game_fetcher::sync_answer;
use rise_fault_proof::components::game_fetcher::FetchGameError;
use rise_fault_proof::components::game_fetcher::GameReplies;
use rise_fault_proof::components::game_fetcher::SyncResult;
use rise_fault_proof::rpc::el::header_from_block;
use rise_fault_proof::rpc::el::header_from_raw;
use rise_fault_proof::rpc::el::headers_from_raw;
use rise_fault_proof::rpc::el::HeaderError;

fn word(byte: u8) -> B256 {
    B256 { bytes: [byte; 32] }
}

fn address(byte: u8) -> Address {
    Address { bytes: [byte; 20] }
}

fn claim_data() -> ClaimData {
    ClaimData {
        parent_index: u32::MAX,
        countered_by: Address::zero(),
        prover: Address::zero(),
        claim: word(9),
        status: ProposalStatus::Unchallenged,
        deadline: 1000,
    }
}

fn game(tag: u8, parent_index: u32, start_block: u64, claim_block: u64) -> GameSnapshot {
    GameSnapshot {
        game_type: 42,
        created_at: 500,
        game_address: address(tag),
        output_root: word(tag),
        claim_block,
        game_status: GameStatus::IN_PROGRESS,
        is_blacklisted: false,
        start_block,
        parent_index,
        claim_data: claim_data(),
    }
}

fn state_of(games: &[GameSnapshot]) -> State {
    let mut state = State::default();
    for (i, game) in games.iter().enumerate() {
        assert!(state.insert_game(i as u32, *game));
    }
    state.game_count = games.len() as u32;
    state.anchor_root =
        AnchorRootSnapshot { output_root: word(1), claim_block: 10, anchor_game: address(200) };
    state
}

#[test]
fn clamp_gives_the_nearest_index() {
    let range = GameRangeInclusive::new(Some(3), Some(8));
    assert_eq!(range.clamp(1), 3);
    assert_eq!(range.clamp(5), 5);
    assert_eq!(range.clamp(11), 8);
    assert_eq!(range.clamp(range.clamp(11)), 8);
    assert_eq!(GameRangeInclusive::new(None, None).clamp(11), 11);
    assert_eq!(GameRangeInclusive::new(Some(9), Some(4)).clamp(6), 9);
    assert!(range.contains(3) && range.contains(8));
    assert!(!range.contains(2) && !range.contains(9));
    assert_eq!((range.start_bound(), range.end_bound()), (Some(3), Some(8)));
}

#[test]
fn random_games_are_distinct_and_in_range() {
    for len in 0..40 {
        let games = pick_random_games(10..40, len);
        assert_eq!(games.len(), len.min(30));
        let mut sorted = games.clone();
        sorted.sort();
        sorted.dedup();
        assert_eq!(sorted.len(), games.len());
        assert!(games.iter().all(|g| (10..40).contains(g)));
    }
    assert_eq!(pick_random_games(5..8, 3), vec![5, 6, 7]);
    assert_eq!(pick_random_games(5..8, 9), vec![5, 6, 7]);
    assert_eq!(pick_random_games(8..8, 3), Vec::<u32>::new());
    assert_eq!(games_at(100..110, &vec![3, 0, 9]), vec![103, 100, 109]);
}

#[test]
fn random_games_differ_between_calls() {
    let first = pick_random_games(0..1_000_000, 20);
    assert!((0..20).any(|_| pick_random_games(0..1_000_000, 20) != first));
}

#[test]
fn snapshot_is_judged_by_its_state() {
    let good = game(1, u32::MAX, 0, 1);
    assert!(good.still_good(499) && !good.still_good(500));
    assert!(good.is_retired(500) && !good.is_retired(499));
    assert!(!GameSnapshot { is_blacklisted: true, ..good }.still_good(0));
    let lost = GameSnapshot { game_status: GameStatus::CHALLENGER_WINS, ..good };
    assert!(!lost.still_good(0) && !lost.can_challenge(0));
    let won = GameSnapshot { game_status: GameStatus::DEFENDER_WINS, ..good };
    assert!(won.still_good(0) && !won.can_challenge(0));
    assert!(!good.is_over(1000) && good.is_over(1001));
    assert!(good.can_challenge(1000) && !good.can_challenge(1001));
    let proved = GameSnapshot {
        claim_data: ClaimData { prover: address(7), ..claim_data() },
        ..good
    };
    assert!(proved.is_over(0) && !proved.can_challenge(0));
    let challenged = GameSnapshot {
        claim_data: ClaimData { status: ProposalStatus::Challenged, ..claim_data() },
        ..good
    };
    assert!(!challenged.can_challenge(0));
}

#[test]
fn anchor_root_is_empty_until_it_is_fetched() {
    let unset = AnchorRootSnapshot::default();
    assert!(unset.is_empty());
    assert!(!AnchorRootSnapshot { output_root: word(1), ..unset }.is_empty());
    assert!(!AnchorRootSnapshot { claim_block: 1, ..unset }.is_empty());
    assert!(!AnchorRootSnapshot { anchor_game: address(1), ..unset }.is_empty());
    let mut last_byte = [0u8; 32];
    last_byte[31] = 1;
    assert!(!AnchorRootSnapshot { output_root: B256 { bytes: last_byte }, ..unset }.is_empty());
}

#[test]
fn canonical_head_needs_the_anchor_root() {
    assert_eq!(get_canonical_head(&State::default()), None);
    let mut state = state_of(&[game(1, u32::MAX, 0, 20)]);
    state.anchor_root = AnchorRootSnapshot::default();
    assert_eq!(range_of_possible_canonical_head(&state), None);
    assert_eq!(get_canonical_head(&state), None);
    state.anchor_root.output_root = word(1);
    assert_eq!(get_canonical_head(&state), Some((0, 20)));
}

#[test]
fn fetched_range_is_the_run_of_present_games() {
    let mut state = State::default();
    let snapshot = game(1, u32::MAX, 0, 1);
    assert!(state.insert_game(10, snapshot));
    assert_eq!(state.fetched_range, 10..11);
    assert!(state.insert_game(12, snapshot));
    assert_eq!(state.fetched_range, 10..11);
    assert!(state.insert_game(11, snapshot));
    assert_eq!(state.fetched_range, 10..13);
    assert!(state.insert_game(8, snapshot));
    assert_eq!(state.fetched_range, 10..13);
    assert!(state.insert_game(9, snapshot));
    assert_eq!(state.fetched_range, 8..13);
    assert!(!state.insert_game(9, snapshot));
    assert!(state.insert_game(9, game(2, u32::MAX, 0, 1)));
    assert_eq!(state.fetched_range, 8..13);
    for i in (0..8).rev() {
        assert!(state.insert_game(i, snapshot));
    }
    assert_eq!(state.fetched_range, 0..13);
    assert_eq!(state.games.len(), 13);
}

#[test]
fn wrong_games_are_challenged_and_correct_ones_left_alone() {
    let mut state = state_of(&[game(1, u32::MAX, 10, 20), game(2, 0, 20, 30), game(3, 1, 30, 40)]);
    assert!(next_games_to_challenge(&state, 900).is_empty());
    state.correct_output_roots.insert(20, word(1));
    state.correct_output_roots.insert(30, word(77));
    let next = next_games_to_challenge(&state, 900);
    assert_eq!(next, BTreeMap::from([(1, address(2))]));
    assert!(next_games_to_challenge(&state, 1001).is_empty());
    let lost = GameSnapshot { game_status: GameStatus::CHALLENGER_WINS, ..game(2, 0, 20, 30) };
    assert!(state.insert_game(1, lost));
    let next = next_games_to_challenge(&state, 900);
    assert_eq!(next, BTreeMap::from([(2, address(3))]));
    state.retirement_timestamp = 500;
    assert!(next_games_to_challenge(&state, 900).is_empty());
}

#[test]
fn claimed_blocks_are_sorted_and_distinct() {
    let state = state_of(&[game(1, u32::MAX, 10, 30), game(2, 0, 20, 20), game(3, 1, 30, 30)]);
    assert_eq!(claim_blocks_of(&state, &vec![0, 1, 2, 7]), vec![20, 30]);
    assert_eq!(claim_blocks_of(&state, &vec![]), Vec::<u64>::new());
    assert_eq!(blocks_to_refresh(&state, vec![1], 1), vec![20]);
    assert_eq!(blocks_to_refresh(&state, vec![1, 0], 0), vec![20, 30]);
    assert_eq!(blocks_to_refresh(&state, vec![], 3), vec![20, 30]);
}

fn encoded_header(number: u64, withdrawals_root: Option<u8>) -> (Vec<u8>, alloy_consensus::Header) {
    let mut header = alloy_consensus::Header::default();
    header.number = number;
    header.state_root = alloy_primitives::B256::repeat_byte(0x55);
    header.base_fee_per_gas = Some(7);
    header.withdrawals_root = withdrawals_root.map(alloy_primitives::B256::repeat_byte);
    (alloy_rlp::encode(&header), header)
}

#[test]
fn headers_are_decoded() {
    let (raw, plain) = encoded_header(12, Some(0x66));
    let header = header_from_raw(Some(raw.clone())).unwrap();
    assert_eq!(header.number(), 12);
    assert_eq!(header.state_root(), word(0x55));
    assert_eq!(header.withdrawals_root(), Some(word(0x66)));
    assert_eq!(header.hash_slow().bytes, plain.hash_slow().0);
    assert_eq!(*header.rlp(), raw);
    assert_eq!(header_from_raw(Some(header.rlp().clone())), Some(header));
    let mut followed = raw.clone();
    followed.push(7);
    assert_eq!(*header_from_raw(Some(followed)).unwrap().rlp(), raw);
    assert_eq!(header_from_raw(None), None);
    assert_eq!(header_from_raw(Some(vec![1, 2, 3])), None);
    let (other, _) = encoded_header(13, None);
    let headers = headers_from_raw(Some(vec![raw.clone(), other])).unwrap();
    assert_eq!((headers[0].number(), headers[1].number()), (12, 13));
    assert_eq!(headers_from_raw(Some(vec![raw, vec![0]])), None);
    assert_eq!(headers_from_raw(None), None);
    assert_eq!(header_from_block(None), Err(HeaderError::NullResp));
    assert!(header_from_block(header_from_raw(Some(encoded_header(1, None).0))).is_ok());
}

#[test]
fn output_root_is_the_hash_of_the_output() {
    let (raw, plain) = encoded_header(12, Some(0x66));
    let header = header_from_raw(Some(raw)).unwrap();
    let mut preimage = vec![0u8; 32];
    preimage.extend([0x55; 32]);
    preimage.extend([0x66; 32]);
    preimage.extend(plain.hash_slow().0);
    let expected = alloy_primitives::keccak256(&preimage).0;
    assert_eq!(get_output_root(&header).unwrap().bytes, expected);
    let without = header_from_raw(Some(encoded_header(12, None).0)).unwrap();
    assert_eq!(get_output_root(&without), None);
}

#[test]
fn output_roots_are_noted_under_their_blocks() {
    let mut state = State::default();
    state.correct_output_roots.insert(12, word(1));
    state.correct_output_roots.insert(13, word(2));
    let raws = vec![encoded_header(12, Some(0x66)).0, encoded_header(13, None).0];
    let headers = headers_from_raw(Some(raws)).unwrap();
    note_output_roots(&mut state, &headers);
    assert_eq!(state.correct_output_roots[&12], get_output_root(&headers[0]).unwrap());
    assert_eq!(state.correct_output_roots[&13], word(2));
}

#[test]
fn canonical_head_has_the_highest_claim() {
    let mut state = state_of(&[
        game(1, u32::MAX, 10, 20),
        game(2, 0, 20, 30),
        game(3, 0, 20, 35),
        game(4, u32::MAX, 11, 99),
        game(5, 3, 99, 100),
        game(6, 1, 30, 35),
    ]);
    assert_eq!(range_of_possible_canonical_head(&state), Some(0..6));
    assert_eq!(get_canonical_head(&state), Some((5, 35)));
    let bad = GameSnapshot { is_blacklisted: true, ..game(2, 0, 20, 30) };
    state.insert_game(1, bad);
    assert_eq!(get_canonical_head(&state), Some((2, 35)));
}

#[test]
fn canonical_head_descends_from_the_anchor_game() {
    let mut state = state_of(&[
        game(1, u32::MAX, 10, 20),
        game(2, u32::MAX, 10, 50),
        game(3, 0, 20, 30),
        game(4, 2, 30, 40),
    ]);
    state.anchor_root.anchor_game = address(3);
    assert_eq!(range_of_possible_canonical_head(&state), Some(2..4));
    assert_eq!(get_canonical_head(&state), Some((3, 40)));
    let lost = GameSnapshot { game_status: GameStatus::CHALLENGER_WINS, ..game(4, 2, 30, 40) };
    state.insert_game(3, lost);
    assert_eq!(get_canonical_head(&state), Some((2, 30)));
}

#[test]
fn canonical_head_lies_after_retired_games() {
    let mut state = state_of(&[game(1, u32::MAX, 10, 20), game(2, 0, 20, 30)]);
    state.retirement_timestamp = 500;
    assert_eq!(range_of_possible_canonical_head(&state), Some(2..2));
    assert_eq!(get_canonical_head(&state), Some((u32::MAX, 10)));
}

#[test]
fn canonical_head_needs_the_latest_and_the_earliest_games() {
    let mut state = state_of(&[game(1, u32::MAX, 10, 20)]);
    state.game_count = 2;
    assert_eq!(get_canonical_head(&state), None);
    let mut state = State::default();
    state.insert_game(5, game(1, u32::MAX, 10, 20));
    state.game_count = 6;
    assert_eq!(range_of_possible_canonical_head(&state), None);
    assert_eq!(get_canonical_head(&state), None);
}

#[test]
fn canonical_head_of_no_games_is_the_anchor_root() {
    let state = state_of(&[]);
    assert_eq!(get_canonical_head(&state), Some((u32::MAX, 10)));
}

#[test]
fn plan_claims_safe_heads_one_after_the_other() {
    let mut plan = CreationPlan::new(100, 130, 3);
    assert_eq!(plan.next_target(), Some(101));
    plan.claim(110);
    assert_eq!(plan.next_target(), Some(111));
    plan.claim(120);
    assert_eq!(plan.next_target(), Some(121));
    plan.claim(130);
    assert_eq!(plan.next_target(), None);
    assert_eq!(plan.into_blocks(), vec![110, 120, 130]);
    assert_eq!(CreationPlan::new(100, 100, 3).next_target(), None);
    assert_eq!(CreationPlan::new(100, 130, 0).next_target(), None);
    let mut short = CreationPlan::new(100, 105, 3);
    short.claim(105);
    assert_eq!(short.next_target(), None);
}

#[test]
fn games_are_created_on_top_of_each_other() {
    let mut creation = GameCreation::new(7, vec![20, 30, 40], vec![word(1), word(2), word(3)]);
    let request = creation.request().unwrap();
    assert_eq!((request.claim_block, request.output_root), (20, word(1)));
    let mut extra_data = vec![0u8; 36];
    extra_data[31] = 20;
    extra_data[35] = 7;
    assert_eq!(request.extra_data, extra_data);
    assert_eq!(creation.decide(address(9)), CreateDecision::Skip);
    let request = creation.request().unwrap();
    assert_eq!(request.claim_block, 30);
    assert_eq!(request.extra_data[32..], [0, 0, 0, 7]);
    assert_eq!(creation.decide(Address::zero()), CreateDecision::Send);
    assert_eq!(creation.request().unwrap().claim_block, 30);
    assert_eq!(
        creation.created(300, 302, &vec![address(1), address(2)], address(3)),
        Err(CreateGameError::MissingGame)
    );
    assert_eq!(creation.request().unwrap().claim_block, 30);
    assert_eq!(creation.created(300, 301, &vec![], address(3)), Ok(300));
    let request = creation.request().unwrap();
    assert_eq!(request.claim_block, 40);
    assert_eq!(request.extra_data[32..], [0, 0, 1, 44]);
    assert_eq!(creation.created(301, 302, &vec![], address(3)), Ok(301));
    assert_eq!(creation.request(), None);
}

#[test]
fn games_without_an_output_root_are_not_created() {
    let creation = GameCreation::new(7, vec![20], vec![]);
    assert_eq!(creation.request(), None);
}

#[test]
fn created_game_is_found_by_its_address() {
    let proxies = vec![address(1), address(2), address(2)];
    assert_eq!(find_created_game(10, 13, &proxies, address(2)), Ok(11));
    assert_eq!(find_created_game(10, 11, &vec![], address(2)), Ok(10));
    let missing = Err(CreateGameError::MissingGame);
    assert_eq!(find_created_game(10, 13, &proxies, address(4)), missing);
    assert_eq!(find_created_game(10, 12, &vec![address(4)], address(2)), missing);
    assert_eq!(find_created_game(10, 10, &proxies, address(1)), missing);
    assert_eq!(find_created_game(12, 10, &proxies, address(1)), missing);
    assert_eq!(find_created_game(u32::MAX, 0, &proxies, address(1)), missing);
}

#[test]
fn creation_event_is_found_by_its_signature() {
    let topics = vec![None, Some(word(1)), Some(word(2)), Some(word(2))];
    assert_eq!(find_created_event(&topics, word(2)), Ok(2));
    assert_eq!(find_created_event(&topics, word(3)), Err(CreateGameError::MissingEvent));
}

#[test]
fn new_games_are_fetched_first() {
    let all = GameRangeInclusive::new(None, None);
    assert_eq!(plan_fetch(12, 5, 10, &all, 6, &vec![7, 8]), vec![10, 11, 4, 3, 2, 1]);
    assert_eq!(plan_fetch(12, 2, 10, &all, 6, &vec![7, 8, 9]), vec![10, 11, 1, 0, 7, 8]);
    assert_eq!(plan_fetch(12, 0, 12, &all, 2, &vec![7, 8]), vec![7, 8]);
    assert_eq!(plan_fetch(12, 5, 10, &all, 0, &vec![7]), Vec::<u32>::new());
    let bounds = GameRangeInclusive::new(Some(3), Some(10));
    assert_eq!(plan_fetch(12, 5, 10, &bounds, 6, &vec![7, 8]), vec![10, 4, 3, 7, 8]);
    assert_eq!(plan_fetch(5, 7, 9, &all, 2, &vec![]), vec![6, 5]);
}

#[test]
fn fetching_starts_with_the_newest_game() {
    let all = GameRangeInclusive::new(None, None);
    assert_eq!(next_games_to_fetch(12, 0..0, all, 3), vec![11, 10, 9]);
    let bounds = GameRangeInclusive::new(Some(2), Some(5));
    assert_eq!(next_games_to_fetch(12, 0..0, bounds, 3), vec![5, 4, 3]);
    let late = GameRangeInclusive::new(Some(10), None);
    assert_eq!(next_games_to_fetch(5, 0..0, late, 3), Vec::<u32>::new());
    let batch = next_games_to_fetch(20, 5..15, all, 16);
    assert_eq!(batch[..10], [15, 16, 17, 18, 19, 4, 3, 2, 1, 0]);
    assert_eq!(batch.len(), 16);
    assert!(batch[10..].iter().all(|g| (5..15).contains(g)));
}

fn replies() -> GameReplies {
    GameReplies {
        game_type: 42,
        created_at: 500,
        game_address: address(1),
        root_claim: Some(word(1)),
        l2_block_number: Some(30),
        status: Some(GameStatus::IN_PROGRESS),
        is_blacklisted: Some(false),
        starting_block_number: Some(10),
        parent_index: Some(4),
        claim_data: Some(claim_data()),
    }
}

#[test]
fn snapshot_is_assembled_from_replies() {
    assert_eq!(assemble_snapshot(&replies()), Ok(game(1, 4, 10, 30)));
    let sparse = GameReplies {
        starting_block_number: None,
        parent_index: None,
        claim_data: None,
        ..replies()
    };
    let snapshot = assemble_snapshot(&sparse).unwrap();
    assert_eq!((snapshot.start_block, snapshot.parent_index), (0, 0));
    assert_eq!(snapshot.claim_data, ClaimData::default());
    assert_eq!(snapshot.claim_data.deadline, 0);
}

#[test]
fn snapshot_needs_what_every_game_has() {
    let without = |edit: fn(&mut GameReplies)| {
        let mut replies = replies();
        edit(&mut replies);
        assemble_snapshot(&replies)
    };
    assert_eq!(without(|r| r.root_claim = None), Err(FetchGameError::RootClaim));
    assert_eq!(without(|r| r.l2_block_number = None), Err(FetchGameError::L2BlockNumber));
    assert_eq!(without(|r| r.status = None), Err(FetchGameError::Status));
    assert_eq!(without(|r| r.is_blacklisted = None), Err(FetchGameError::Blacklist));
}

#[test]
fn fetched_games_are_stored_with_their_news() {
    let mut state = state_of(&[game(1, u32::MAX, 10, 20)]);
    let fetched = vec![
        (0, Some(game(1, u32::MAX, 10, 20))),
        (2, None),
        (1, Some(game(2, 0, 20, 30))),
    ];
    let news = store_fetched_games(&mut state, &fetched);
    assert_eq!(news, BTreeMap::from([(0, false), (1, true)]));
    assert!(any_changed(&news));
    assert_eq!(state.fetched_range, 0..2);
    assert_eq!(state.games[&1], game(2, 0, 20, 30));
    let news = store_fetched_games(&mut state, &fetched);
    assert!(!any_changed(&news));
    assert!(!any_changed(&BTreeMap::new()));
    let result = |fetched_games| SyncResult {
        game_count: 2,
        anchor_root: state.anchor_root,
        fetched_games,
    };
    assert!(sync_answer(&result(BTreeMap::from([(0, false), (1, true)]))));
    assert!(!sync_answer(&result(news)));
}

#[test]
fn fetched_range_is_kept_when_games_are_stored() {
    let mut state = State::default();
    let snapshot = game(1, u32::MAX, 10, 20);
    store_fetched_games(&mut state, &vec![(7, None), (9, None)]);
    assert_eq!(state.fetched_range, 0..0);
    store_fetched_games(
        &mut state,
        &vec![(7, None), (5, Some(snapshot)), (20, Some(snapshot)), (6, Some(snapshot))],
    );
    assert_eq!(state.fetched_range, 5..7);
    store_fetched_games(&mut state, &vec![(30, Some(snapshot))]);
    assert_eq!(state.fetched_range, 5..7);
    store_fetched_games(&mut state, &vec![(4, Some(snapshot)), (7, Some(snapshot)), (8, None)]);
    assert_eq!(state.fetched_range, 4..8);
}

#[test]
fn metadata_is_stored() {
    let mut state = state_of(&[game(1, u32::MAX, 10, 20)]);
    let anchor = AnchorRootSnapshot { output_root: word(8), claim_block: 3, anchor_game: address(4) };
    store_metadata(&mut state, 17, anchor);
    assert_eq!(state.game_count, 17);
    assert!(state.anchor_root == anchor);
    assert_eq!(state.fetched_range, 0..1);
}
