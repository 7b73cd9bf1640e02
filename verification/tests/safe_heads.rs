use rise_fault_proof::commands::prover::l1_head_range;
use rise_fault_proof::common::blocks::BlockInfo;
use rise_fault_proof::common::blocks::BlockNumHash;
use rise_fault_proof::common::blocks::BlockNumberOrTag;
use rise_fault_proof::common::blocks::L2BlockInfo;
use rise_fault_proof::common::cl_rpc_utils;
use rise_fault_proof::common::fixed_bytes::B256;
use rise_fault_proof::components::game_creator::search_claim;
use rise_fault_proof::components::game_creator::ClaimSearch;
use rise_fault_proof::components::game_creator::ClaimStep;
use rise_fault_proof::rpc::cl::pick_query_points;
use rise_fault_proof::rpc::cl::L1SafeSearch;
use rise_fault_proof::rpc::cl::L1SafeStep;
use rise_fault_proof::rpc::cl::OutputResponse;
use rise_fault_proof::rpc::cl::SafeDBClient;
use rise_fault_proof::rpc::cl::SafeHeadLookup;
use rise_fault_proof::rpc::cl::SafeHeadResponse;
use rise_fault_proof::rpc::cl::SafeHeadSearch;
use rise_fault_proof::rpc::cl::SyncStatus;
use rise_fault_proof::rpc::l1_range_cache::L1RangeCache;
use rise_fault_proof::rpc::spread::bresenham;

fn word(byte: u8) -> B256 {
    B256 { bytes: [byte; 32] }
}

fn response(l1_block: u64, safe_head: u64) -> SafeHeadResponse {
    SafeHeadResponse {
        l1_block: BlockNumHash { number: l1_block, hash: word(l1_block as u8) },
        safe_head: BlockNumHash { number: safe_head, hash: word(0xee) },
    }
}

/// A node whose safe head moves on by ten blocks with every third L1 block.
fn answer(l1_block: u64) -> SafeHeadResponse {
    response(l1_block / 3 * 3, l1_block / 3 * 10)
}

fn first_safe(l2_block: u64, start: u64, end: u64) -> u64 {
    (start..end).find(|n| n / 3 * 10 >= l2_block).unwrap_or(end)
}

fn search(client: &mut SafeDBClient, l2_block: u64, from: u64, to: u64) -> (u64, usize) {
    let (mut start, mut end) = (from, to);
    let mut rounds: usize = 0;
    loop {
        match client.l2_to_l1_safe_within_range(l2_block, start, end) {
            SafeHeadSearch::Found(l1_block) => return (l1_block, rounds),
            SafeHeadSearch::Query { start: s, end: e, l1_block_numbers } => {
                assert!(start <= s && s < e && e <= end);
                assert!(l1_block_numbers.iter().all(|n| s <= *n && *n < e));
                let responses: Vec<SafeHeadResponse> =
                    l1_block_numbers.iter().map(|n| answer(*n)).collect();
                client.cache_safe_heads(&l1_block_numbers, &responses);
                start = s;
                end = e;
                rounds += 1;
                assert!(rounds < 1000);
            }
        }
    }
}

#[test]
fn terms_share_a_sum_evenly() {
    assert_eq!(bresenham(10, 4), vec![2, 3, 2, 3]);
    assert_eq!(bresenham(7, 4), vec![1, 2, 2, 2]);
    assert_eq!(bresenham(0, 3), vec![0, 0, 0]);
    assert_eq!(bresenham(7, 1), vec![7]);
    assert_eq!(bresenham(2, 5), vec![0, 0, 1, 0, 1]);
    assert_eq!(bresenham(u64::MAX, 1), vec![u64::MAX]);
    let terms = bresenham(1_000_003, 17);
    assert_eq!(terms.len(), 17);
    assert_eq!(terms.iter().sum::<u64>(), 1_000_003);
    assert!(terms.iter().all(|t| *t == 1_000_003 / 17 || *t == 1_000_003 / 17 + 1));
}

#[test]
fn questions_are_spread_over_the_interval() {
    assert_eq!(pick_query_points(100, 110, 3), vec![101, 104, 107]);
    assert_eq!(pick_query_points(100, 103, 5), vec![100, 101, 102]);
    assert_eq!(pick_query_points(100, 105, 5), vec![100, 101, 102, 103, 104]);
    assert_eq!(pick_query_points(100, 106, 5), vec![100, 101, 102, 103, 104]);
    assert_eq!(pick_query_points(100, 112, 5), vec![101, 103, 105, 107, 109]);
    assert_eq!(pick_query_points(7, 7, 4), Vec::<u64>::new());
    assert_eq!(pick_query_points(7, 9, 0), Vec::<u64>::new());
}

#[test]
fn ranges_grow_with_what_is_recorded() {
    let mut cache = L1RangeCache::new();
    assert_eq!(cache.get(5), None);
    assert_eq!(cache.last_below(100), None);
    assert_eq!(cache.first_from(0), None);
    cache.record(5, 10, 12);
    cache.record(5, 11, 15);
    cache.record(9, 20, 20);
    assert_eq!(cache.get(5), Some((10, 15)));
    assert_eq!(cache.last_below(9), Some((5, (10, 15))));
    assert_eq!(cache.last_below(10), Some((9, (20, 20))));
    assert_eq!(cache.last_below(5), None);
    assert_eq!(cache.first_from(5), Some((5, (10, 15))));
    assert_eq!(cache.first_from(6), Some((9, (20, 20))));
    assert_eq!(cache.first_from(10), None);
}

#[test]
fn search_finds_the_first_safe_block() {
    for batch_size in [1, 2, 5, 64] {
        for l2_block in [0, 1, 9, 11, 35, 95, 123, 1000] {
            let mut client = SafeDBClient::new(batch_size);
            let (found, _) = search(&mut client, l2_block, 7, 61);
            let expected = first_safe(l2_block, 7, 61);
            if client.l1_to_l2_safe(found, Some(l2_block)) == SafeHeadLookup::Known(l2_block) {
                assert_eq!(found, first_safe(l2_block, 0, 61));
            } else {
                assert_eq!(found, expected);
            }
        }
    }
}

#[test]
fn search_reuses_what_is_cached() {
    let mut client = SafeDBClient::new(4);
    let (found, rounds) = search(&mut client, 95, 0, 100);
    assert_eq!(found, 30);
    assert!(rounds > 0);
    let (again, no_rounds) = search(&mut client, 95, 0, 100);
    assert_eq!(again, 30);
    assert_eq!(no_rounds, 0);
}

#[test]
fn every_round_shortens_the_interval() {
    let mut client = SafeDBClient::new(1);
    let (mut start, mut end) = (0, 1000);
    while let SafeHeadSearch::Query { start: s, end: e, l1_block_numbers } =
        client.l2_to_l1_safe_within_range(501, start, end)
    {
        assert!(e - s < end - start || (s, e) == (0, 1000));
        let responses: Vec<SafeHeadResponse> =
            l1_block_numbers.iter().map(|n| answer(*n)).collect();
        client.cache_safe_heads(&l1_block_numbers, &responses);
        start = s;
        end = e;
    }
    assert_eq!(client.l2_to_l1_safe_within_range(501, start, end), SafeHeadSearch::Found(153));
}

#[test]
fn cached_range_that_ends_at_the_last_block_gives_the_end() {
    let mut client = SafeDBClient::new(4);
    client.cache_safe_heads(&vec![u64::MAX], &vec![response(u64::MAX, 5)]);
    assert_eq!(client.l2_to_l1_safe_within_range(6, 10, 20), SafeHeadSearch::Found(20));
}

#[test]
fn safe_head_is_looked_up_in_the_cache_first() {
    let mut client = SafeDBClient::new(4);
    assert_eq!(client.l1_to_l2_safe(11, Some(5)), SafeHeadLookup::Query(11));
    client.cache_safe_heads(&vec![12], &vec![response(10, 7)]);
    assert_eq!(client.l1_to_l2_safe(11, Some(5)), SafeHeadLookup::Known(7));
    assert_eq!(client.l1_to_l2_safe(10, Some(7)), SafeHeadLookup::Known(7));
    assert_eq!(client.l1_to_l2_safe(11, Some(8)), SafeHeadLookup::Query(11));
    assert_eq!(client.l1_to_l2_safe(13, Some(5)), SafeHeadLookup::Query(13));
    assert_eq!(client.l1_to_l2_safe(9, Some(5)), SafeHeadLookup::Query(9));
    assert_eq!(client.l1_to_l2_safe(11, None), SafeHeadLookup::Query(11));
    assert_eq!(client.get_cached_l1_block_hash(10), Some(word(10)));
    assert_eq!(client.get_cached_l1_block_hash(12), None);
}

fn block(number: u64) -> BlockInfo {
    BlockInfo { hash: word(1), number, parent_hash: word(2), timestamp: 0 }
}

fn output() -> OutputResponse {
    OutputResponse {
        version: word(0),
        output_root: word(3),
        block_ref: L2BlockInfo {
            block_info: block(1000),
            l1_origin: BlockNumHash { number: 50, hash: word(4) },
            seq_num: 0,
        },
        withdrawal_storage_root: word(5),
        state_root: word(6),
        sync_status: SyncStatus {
            current_l1: block(101),
            head_l1: block(102),
            safe_l1: block(103),
            finalized_l1: block(104),
        },
    }
}

#[test]
fn search_interval_ends_with_the_named_block() {
    let resp = output();
    let range = |tag| SafeDBClient::l1_search_range(&resp, tag);
    assert_eq!(range(BlockNumberOrTag::Latest), Some((50, 101)));
    assert_eq!(range(BlockNumberOrTag::Pending), Some((50, 102)));
    assert_eq!(range(BlockNumberOrTag::Safe), Some((50, 103)));
    assert_eq!(range(BlockNumberOrTag::Finalized), Some((50, 104)));
    assert_eq!(l1_head_range(&resp), Some((50, 104)));
    assert_eq!(range(BlockNumberOrTag::Number(7)), Some((50, 7)));
    assert_eq!(range(BlockNumberOrTag::Earliest), None);
}

fn run_search(client: &mut SafeDBClient, l2_block: u64, start: u64, end: u64) -> Option<BlockNumHash> {
    let mut search = L1SafeSearch::Within { start, end };
    let mut replies: Vec<SafeHeadResponse> = Vec::new();
    loop {
        match client.l2_to_l1_safe(l2_block, search, &replies) {
            L1SafeStep::Done(found) => return found,
            L1SafeStep::Query { next, l1_block_numbers } => {
                replies = l1_block_numbers.iter().map(|n| answer(*n)).collect();
                client.cache_safe_heads(&l1_block_numbers, &replies);
                search = next;
            }
        }
    }
}

#[test]
fn search_returns_the_block_with_its_hash() {
    let mut client = SafeDBClient::new(8);
    let found = run_search(&mut client, 95, 0, 100);
    assert_eq!(found, Some(BlockNumHash { number: 30, hash: word(30) }));
}

#[test]
fn search_without_a_safe_block_returns_nothing() {
    let mut client = SafeDBClient::new(8);
    assert_eq!(run_search(&mut client, 1000, 0, 60), None);
}

#[test]
fn search_without_a_hash_returns_nothing() {
    let client = SafeDBClient::new(8);
    let step = client.l2_to_l1_safe(5, L1SafeSearch::HashOf { l1_safe: 9 }, &Vec::new());
    assert_eq!(step, L1SafeStep::Done(None));
}

#[test]
fn answer_is_checked_before_it_is_returned() {
    assert_eq!(SafeDBClient::confirm(10, 3, word(3), 9), None);
    let found = Some(BlockNumHash { number: 3, hash: word(3) });
    assert_eq!(SafeDBClient::confirm(10, 3, word(3), 10), found);
    assert_eq!(SafeDBClient::confirm(10, 3, word(3), 11), found);
    let client = SafeDBClient::new(8);
    let checking = L1SafeSearch::SafeAt { l1_safe: 3, hash: word(3) };
    assert_eq!(
        client.l2_to_l1_safe(10, checking, &vec![response(3, 9)]),
        L1SafeStep::Done(None)
    );
    assert_eq!(
        client.l2_to_l1_safe(10, checking, &vec![response(3, 10)]),
        L1SafeStep::Done(found)
    );
}

#[test]
fn interval_search_finds_the_first_safe_block() {
    let mut client = cl_rpc_utils::SafeDBClient::new(3);
    let (mut start, mut end) = (0, 200);
    let found = loop {
        match client.l2_to_l1_safe(95, start, end) {
            SafeHeadSearch::Found(l1_block) => break l1_block,
            SafeHeadSearch::Query { start: s, end: e, l1_block_numbers } => {
                let responses: Vec<SafeHeadResponse> =
                    l1_block_numbers.iter().map(|n| answer(*n)).collect();
                client.cache_safe_heads(&l1_block_numbers, &responses);
                start = s;
                end = e;
            }
        }
    };
    assert_eq!(found, 30);
    assert_eq!(client.l1_to_l2_safe(30, Some(95)), SafeHeadLookup::Known(100));
    assert_eq!(client.l1_to_l2_safe(500, Some(95)), SafeHeadLookup::Query(500));
    assert_eq!(client.narrow(95, 0, 10), (30, 10));
}

fn claim(client: &mut SafeDBClient, target: u64, start: u64, end: u64) -> u64 {
    let mut search = ClaimSearch::Within { start, end };
    let mut replies: Vec<SafeHeadResponse> = Vec::new();
    loop {
        match search_claim(client, target, search, &replies) {
            ClaimStep::Claim { l2_safe } => return l2_safe,
            ClaimStep::Query { next, l1_block_numbers } => {
                replies = l1_block_numbers.iter().map(|n| answer(*n)).collect();
                client.cache_safe_heads(&l1_block_numbers, &replies);
                search = next;
            }
        }
    }
}

#[test]
fn game_claims_the_safe_head_that_covers_its_target() {
    let mut client = SafeDBClient::new(5);
    assert_eq!(claim(&mut client, 95, 0, 100), 100);
    assert_eq!(claim(&mut client, 101, 0, 100), 110);
    assert_eq!(claim(&mut client, 110, 0, 100), 110);
    assert_eq!(claim(&mut client, 331, 0, 100), 330);
    let searching = ClaimSearch::SafeAt { l1_safe: 7 };
    let step = search_claim(&client, 50, searching, &vec![response(6, 20)]);
    assert_eq!(step, ClaimStep::Claim { l2_safe: 20 });
}

#[test]
fn cached_block_is_looked_up_outside_the_interval() {
    let mut client = SafeDBClient::new(5);
    assert!(!client.is_cached(20));
    client.cache_safe_heads(&vec![8], &vec![answer(8)]);
    assert!(client.is_cached(20));
    assert!(!client.is_cached(19));
    assert_eq!(client.l2_to_l1_safe_within_range(20, 50, 60), SafeHeadSearch::Found(6));
    assert_eq!(client.l2_to_l1_safe_within_range(20, 60, 50), SafeHeadSearch::Found(6));
}

#[test]
fn cached_block_after_the_interval_gives_the_end() {
    let mut client = SafeDBClient::new(5);
    client.cache_safe_heads(&vec![92], &vec![answer(92)]);
    assert!(client.is_cached(300));
    assert_eq!(client.l2_to_l1_safe_within_range(300, 0, 100), SafeHeadSearch::Found(90));
    assert_eq!(client.l2_to_l1_safe_within_range(300, 0, 90), SafeHeadSearch::Found(90));
    assert_eq!(client.l2_to_l1_safe_within_range(300, 0, 50), SafeHeadSearch::Found(50));
    assert_eq!(run_search(&mut client, 300, 0, 50), None);
    let found = run_search(&mut client, 300, 0, 100);
    assert_eq!(found, Some(BlockNumHash { number: 90, hash: word(90) }));
}
