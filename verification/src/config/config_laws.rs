//! What the parameters of a deployment are, variable by variable.

use vstd::prelude::*;

use crate::common::text;
use crate::config::args::optional_u32;
use crate::config::args::parse_bool;
use crate::config::fault_dispute_game;
use crate::config::fault_dispute_game::allowed_addresses;
use crate::config::fault_dispute_game::block_number_hex;
use crate::config::fault_dispute_game::blocks_for_finality;
use crate::config::fault_dispute_game::calculated_start;
use crate::config::fault_dispute_game::search_start;
use crate::config::fault_dispute_game::FaultDisputeGameConfig;
use crate::config::fault_dispute_game::FdgEnv;
use crate::config::fault_dispute_game::FdgSettings;
use crate::config::fault_dispute_game::FdgVariable;
use crate::config::fault_dispute_game::SharedConfig;

verus! {

/// `value` is the number in a variable, or `default` if the variable is not set.
pub open spec fn is_setting(var: Option<String>, default: nat, value: u64) -> bool {
    &&& var is None ==> value == default
    &&& var is Some ==> text::u64_value(var->0@) == Some(value)
}

/// A variable that is set to no number.
pub open spec fn is_no_number(var: Option<String>) -> bool {
    var is Some && text::u64_value(var->0@) is None
}

/// A variable that is set to no truth value.
pub open spec fn is_no_flag(var: Option<String>) -> bool {
    var is Some && var->0@ != seq!['t', 'r', 'u', 'e'] && var->0@ != seq!['f', 'a', 'l', 's', 'e']
}

/// A variable that is set to no `u32`.
pub open spec fn is_no_game_type(var: Option<String>) -> bool {
    var is Some && match text::u64_value(var->0@) {
        Some(n) => n > u32::MAX,
        None => true,
    }
}

/// Every variable that is set counts. Those that are not have defaults: games of type 42, a week for
/// finality and for challenges, a day for proofs, two weeks until the fallback, a thousandth of an
/// ether for the bonds, and permission needed.
pub proof fn variables_decide_settings(env: &FdgEnv, settings: FdgSettings)
    requires
        call_ensures(FdgEnv::read, (env,), Ok(settings)),
    ensures
        is_setting(env.game_type, 42, settings.game_type as u64),
        is_setting(
            env.dispute_game_finality_delay_seconds,
            7 * 24 * 60 * 60,
            settings.dispute_game_finality_delay_seconds,
        ),
        is_setting(
            env.max_challenge_duration,
            7 * 24 * 60 * 60,
            settings.max_challenge_duration,
        ),
        is_setting(env.max_prove_duration, 24 * 60 * 60, settings.max_prove_duration),
        is_setting(
            env.fallback_timeout_fp_secs,
            14 * 24 * 60 * 60,
            settings.fallback_timeout_fp_secs,
        ),
        is_setting(env.initial_bond_wei, 1_000_000_000_000_000, settings.initial_bond_wei),
        is_setting(env.challenger_bond_wei, 1_000_000_000_000_000, settings.challenger_bond_wei),
        settings.permissionless_mode <==> env.permissionless_mode is Some
            && env.permissionless_mode->0@ == seq!['t', 'r', 'u', 'e'],
        env.optimism_portal2_address matches Some(address)
            ==> settings.optimism_portal2_address@ == address@,
        env.optimism_portal2_address is None ==> settings.optimism_portal2_address@.len() == 42
            && settings.optimism_portal2_address@[1] == 'x' && forall|i: int|
            0 <= i < 42 && i != 1 ==> #[trigger] settings.optimism_portal2_address@[i] == '0',
        env.starting_l2_block_number is None <==> settings.starting_l2_block_number is None,
        env.starting_l2_block_number matches Some(s) ==> text::u64_value(s@)
            == settings.starting_l2_block_number,
{
    reveal_strlit("true");
    reveal_strlit("false");
    reveal_strlit("0x0000000000000000000000000000000000000000");
    assert("true"@ =~= seq!['t', 'r', 'u', 'e']);
    assert("false"@ =~= seq!['f', 'a', 'l', 's', 'e']);
    assert("true"@[0] != "false"@[0]);
}

/// Settings are read if and only if every variable that is set can be read.
pub proof fn unreadable_variable_is_named(env: &FdgEnv, r: Result<FdgSettings, FdgVariable>)
    requires
        call_ensures(FdgEnv::read, (env,), r),
    ensures
        r is Ok <==> {
            &&& !is_no_game_type(env.game_type)
            &&& !is_no_number(env.dispute_game_finality_delay_seconds)
            &&& !is_no_number(env.max_challenge_duration)
            &&& !is_no_number(env.max_prove_duration)
            &&& !is_no_number(env.fallback_timeout_fp_secs)
            &&& !is_no_number(env.initial_bond_wei)
            &&& !is_no_number(env.challenger_bond_wei)
            &&& !is_no_flag(env.permissionless_mode)
            &&& !is_no_number(env.starting_l2_block_number)
        },
        r matches Err(var) ==> match var {
            FdgVariable::GameType => is_no_game_type(env.game_type),
            FdgVariable::DisputeGameFinalityDelaySeconds => is_no_number(
                env.dispute_game_finality_delay_seconds,
            ) && !is_no_game_type(env.game_type),
            FdgVariable::MaxChallengeDuration => is_no_number(env.max_challenge_duration)
                && !is_no_number(env.dispute_game_finality_delay_seconds),
            FdgVariable::MaxProveDuration => is_no_number(env.max_prove_duration) && !is_no_number(
                env.max_challenge_duration,
            ),
            FdgVariable::FallbackTimeoutFpSecs => is_no_number(env.fallback_timeout_fp_secs)
                && !is_no_number(env.max_prove_duration),
            FdgVariable::InitialBondWei => is_no_number(env.initial_bond_wei) && !is_no_number(
                env.fallback_timeout_fp_secs,
            ),
            FdgVariable::ChallengerBondWei => is_no_number(env.challenger_bond_wei)
                && !is_no_number(env.initial_bond_wei),
            FdgVariable::PermissionlessMode => is_no_flag(env.permissionless_mode)
                && !is_no_number(env.challenger_bond_wei),
            FdgVariable::StartingL2BlockNumber => is_no_number(env.starting_l2_block_number)
                && !is_no_flag(env.permissionless_mode),
        },
{
    reveal_strlit("true");
    reveal_strlit("false");
    assert("true"@ =~= seq!['t', 'r', 'u', 'e']);
    assert("false"@ =~= seq!['f', 'a', 'l', 's', 'e']);
}

/// The configuration holds each setting under its own name. Addresses are named only where
/// permission is needed.
pub proof fn config_holds_settings(
    settings: FdgSettings,
    shared: SharedConfig,
    proposers: Vec<String>,
    challengers: Vec<String>,
    start: u64,
    root: String,
    config: FaultDisputeGameConfig,
)
    requires
        call_ensures(
            FdgSettings::into_config,
            (settings, shared, proposers, challengers, start, root),
            config,
        ),
    ensures
        config.game_type == settings.game_type,
        config.initial_bond_wei == settings.initial_bond_wei,
        config.challenger_bond_wei == settings.challenger_bond_wei,
        config.max_challenge_duration == settings.max_challenge_duration,
        config.max_prove_duration == settings.max_prove_duration,
        config.dispute_game_finality_delay_seconds == settings.dispute_game_finality_delay_seconds,
        config.fallback_timeout_fp_secs == settings.fallback_timeout_fp_secs,
        config.permissionless_mode == settings.permissionless_mode,
        config.optimism_portal2_address@ == settings.optimism_portal2_address@,
        config.starting_l2_block_number == start,
        config.starting_root@ == root@,
        config.aggregation_vkey@ == shared.aggregation_vkey@,
        config.range_vkey_commitment@ == shared.range_vkey_commitment@,
        config.rollup_config_hash@ == shared.rollup_config_hash@,
        config.verifier_address@ == shared.verifier_address@,
        config.use_sp1_mock_verifier == shared.use_sp1_mock_verifier,
        config.permissionless_mode ==> config.proposer_addresses@.len() == 0
            && config.challenger_addresses@.len() == 0,
        !config.permissionless_mode ==> config.proposer_addresses@ == proposers@
            && config.challenger_addresses@ == challengers@,
{
}

/// No address is named where everyone may take part.
pub proof fn everyone_or_named(permissionless: bool, addresses: Vec<String>, r: Vec<String>)
    requires
        call_ensures(allowed_addresses, (permissionless, addresses), r),
    ensures
        permissionless ==> r@.len() == 0,
        !permissionless ==> r@ == addresses@,
{
}

/// The blocks of the finality delay are as many as fit into it.
pub proof fn delay_is_filled_with_blocks(delay: u64, block_time: u64, blocks: u64)
    requires
        block_time > 0,
        call_ensures(blocks_for_finality, (delay, block_time), blocks),
    ensures
        blocks * block_time <= delay,
        delay < (blocks + 1) * block_time,
{
    vstd::arithmetic::div_mod::lemma_fundamental_div_mod(delay as int, block_time as int);
    assert(blocks * block_time == block_time as int * (delay as int / block_time as int))
        by (nonlinear_arith)
        requires
            blocks == delay as int / block_time as int,
    ;
    assert((blocks + 1) * block_time == blocks * block_time + block_time) by (nonlinear_arith);
}

/// `start` lies as far before `block` as the finality delay reaches, but not before the first block.
pub open spec fn is_delay_before(
    start: u64,
    block: u64,
    delay: u64,
    block_time: u64,
) -> bool {
    &&& start <= block
    &&& (block - start) * block_time <= delay
    &&& start > 0 ==> delay < (block - start + 1) * block_time
}

proof fn less_blocks_is_delay_before(block: u64, delay: u64, block_time: u64, blocks: u64)
    requires
        block_time > 0,
        blocks == delay as int / block_time as int,
    ensures
        is_delay_before(
            fault_dispute_game::minus_or_zero(block, blocks),
            block,
            delay,
            block_time,
        ),
{
    let start = fault_dispute_game::minus_or_zero(block, blocks);
    let n = block - start;
    vstd::arithmetic::div_mod::lemma_fundamental_div_mod(delay as int, block_time as int);
    assert(blocks * block_time <= delay < (blocks + 1) * block_time) by (nonlinear_arith)
        requires
            delay == block_time * (delay as int / block_time as int) + delay as int
                % block_time as int,
            0 <= delay as int % block_time as int,
            (delay as int % block_time as int) < block_time,
            blocks == delay as int / block_time as int,
    ;
    assert(n * block_time <= blocks * block_time) by (nonlinear_arith)
        requires
            0 <= n <= blocks,
            block_time > 0,
    ;
}

/// A given block is where games start. Without one, they start the finality delay before the highest
/// finalized block with data, or before the latest finalized block if no such block was found.
pub proof fn games_start_delay_before_finalized(
    settings: &FdgSettings,
    finalized: u64,
    block_time: u64,
    found: Option<u64>,
    start: u64,
)
    requires
        block_time > 0,
        call_ensures(FdgSettings::starting_block, (settings, finalized, block_time, found), start),
    ensures
        settings.starting_l2_block_number matches Some(given) ==> start == given,
        settings.starting_l2_block_number is None ==> is_delay_before(
            start,
            if found is Some {
                found->0
            } else {
                finalized
            },
            settings.dispute_game_finality_delay_seconds,
            block_time,
        ),
{
    let delay = settings.dispute_game_finality_delay_seconds;
    let blocks = delay as int / block_time as int;
    vstd::arithmetic::div_mod::lemma_div_is_ordered_by_denominator(
        delay as int,
        1,
        block_time as int,
    );
    vstd::arithmetic::div_mod::lemma_div_basics(delay as int);
    vstd::arithmetic::div_mod::lemma_div_pos_is_pos(delay as int, block_time as int);
    let block = if found is Some {
        found->0
    } else {
        finalized
    };
    less_blocks_is_delay_before(block, delay, block_time, blocks as u64);
}

/// The search for the highest finalized block with data starts where the games would start without
/// it. There is none if the block is given.
pub proof fn search_starts_where_games_would(
    settings: &FdgSettings,
    finalized: u64,
    block_time: u64,
    from: Option<u64>,
    start: u64,
)
    requires
        block_time > 0,
        call_ensures(FdgSettings::search_from, (settings, finalized, block_time), from),
        call_ensures(FdgSettings::starting_block, (settings, finalized, block_time, None), start),
    ensures
        settings.starting_l2_block_number is Some ==> from is None,
        settings.starting_l2_block_number is None ==> from == Some(start),
{
}

/// The search starts the blocks of the delay before the finalized block, and the games the blocks of
/// the delay before the block that is found. Where none is found, they start with the search.
pub proof fn start_keeps_distance(
    finalized: u64,
    blocks: u64,
    found: Option<u64>,
    from: u64,
    start: u64,
)
    requires
        call_ensures(search_start, (finalized, blocks), from),
        call_ensures(calculated_start, (found, from, blocks), start),
    ensures
        blocks <= finalized ==> from + blocks == finalized,
        blocks > finalized ==> from == 0,
        found is None ==> start == from,
        found is Some && blocks <= found->0 ==> start + blocks == found->0,
        found is Some && blocks > found->0 ==> start == 0,
{
}

/// The number that a text of hexadecimal digits in lower case denotes.
pub open spec fn hex_number(digits: Seq<char>) -> int
    decreases digits.len(),
{
    if digits.len() == 0 {
        0
    } else {
        16 * hex_number(digits.drop_last()) + text::hex_value(digits.last())
    }
}

proof fn hex_digits_denote(n: nat)
    ensures
        hex_number(fault_dispute_game::hex_digits(n)) == n,
        fault_dispute_game::hex_digits(n).len() > 0,
        n > 0 ==> fault_dispute_game::hex_digits(n)[0] != '0',
        n == 0 ==> fault_dispute_game::hex_digits(n).len() == 1,
        forall|i: int|
            0 <= i < fault_dispute_game::hex_digits(n).len()
                ==> text::hex_value(
                #[trigger] fault_dispute_game::hex_digits(n)[i],
            ) >= 0,
    decreases n,
{
    let digits = fault_dispute_game::hex_digits(n);
    if n < 16 {
        assert(digits.drop_last() =~= Seq::empty());
        assert(hex_number(digits.drop_last()) == 0);
        text::hex_char_spells(n as int);
    } else {
        hex_digits_denote(n / 16);
        assert(digits.drop_last() =~= fault_dispute_game::hex_digits(n / 16));
        text::hex_char_spells((n % 16) as int);
    }
}

/// A block number is written as `0x` and hexadecimal digits that denote it, without leading zeros.
pub proof fn block_number_is_spelled(n: u64, r: String)
    requires
        call_ensures(block_number_hex, (n,), r),
    ensures
        r@.len() >= 3,
        r@[0] == '0',
        r@[1] == 'x',
        hex_number(r@.skip(2)) == n,
        forall|i: int|
            2 <= i < r@.len() ==> text::hex_value(#[trigger] r@[i]) >= 0,
        r@[2] == '0' ==> r@.len() == 3,
{
    reveal_strlit("0x");
    let digits = fault_dispute_game::hex_digits(n as nat);
    hex_digits_denote(n as nat);
    assert(r@.skip(2) =~= digits);
    assert forall|i: int| 2 <= i < r@.len() implies text::hex_value(
        #[trigger] r@[i],
    ) >= 0 by {
        assert(r@[i] == digits[i - 2]);
    }
    assert(r@[2] == digits[0]);
}

/// A truth value is one of two words. A number counts only if it fits.
pub proof fn words_and_numbers_are_read(text: &str, flag: Option<bool>, number: Option<u32>)
    requires
        call_ensures(parse_bool, (text,), flag),
        call_ensures(optional_u32, (text,), number),
    ensures
        flag == Some(true) <==> text@ == seq!['t', 'r', 'u', 'e'],
        flag == Some(false) <==> text@ == seq!['f', 'a', 'l', 's', 'e'],
        number matches Some(n) ==> text::u64_value(text@) == Some(n as u64),
        text::u64_value(text@) matches Some(n) && n <= u32::MAX ==> number is Some,
{
    reveal_strlit("true");
    reveal_strlit("false");
    assert("true"@ =~= seq!['t', 'r', 'u', 'e']);
    assert("false"@ =~= seq!['f', 'a', 'l', 's', 'e']);
    assert("true"@[0] != "false"@[0]);
}

} // verus!
