//! Deployment parameters of the fault dispute game.

use vstd::prelude::*;
use vstd::string::StringExecFns;

use crate::common::text;
use crate::config::args;
use crate::config::args::parse_bool;

verus! {

pub const DEFAULT_GAME_TYPE: u64 = 42;

/// 7 days.
pub const DEFAULT_FINALITY_DELAY_SECS: u64 = 604_800;

/// 7 days.
pub const DEFAULT_MAX_CHALLENGE_DURATION: u64 = 604_800;

/// 1 day.
pub const DEFAULT_MAX_PROVE_DURATION: u64 = 86_400;

/// 2 weeks.
pub const DEFAULT_FALLBACK_TIMEOUT_SECS: u64 = 1_209_600;

/// 0.001 ETH.
pub const DEFAULT_BOND_WEI: u64 = 1_000_000_000_000_000;

/// The environment variables that the parameters come from. One that is not set is `None`.
#[derive(Debug)]
pub struct FdgEnv {
    pub game_type: Option<String>,
    pub dispute_game_finality_delay_seconds: Option<String>,
    pub max_challenge_duration: Option<String>,
    pub max_prove_duration: Option<String>,
    pub fallback_timeout_fp_secs: Option<String>,
    pub initial_bond_wei: Option<String>,
    pub challenger_bond_wei: Option<String>,
    pub permissionless_mode: Option<String>,
    pub optimism_portal2_address: Option<String>,
    pub starting_l2_block_number: Option<String>,
}

/// The variables that hold numbers or truth values.
#[derive(Clone, Copy, Debug, PartialEq, Eq, Structural)]
pub enum FdgVariable {
    GameType,
    DisputeGameFinalityDelaySeconds,
    MaxChallengeDuration,
    MaxProveDuration,
    FallbackTimeoutFpSecs,
    InitialBondWei,
    ChallengerBondWei,
    PermissionlessMode,
    StartingL2BlockNumber,
}

/// The parameters that the environment decides.
#[derive(Debug, PartialEq, Eq)]
pub struct FdgSettings {
    pub game_type: u32,
    pub dispute_game_finality_delay_seconds: u64,
    pub max_challenge_duration: u64,
    pub max_prove_duration: u64,
    pub fallback_timeout_fp_secs: u64,
    pub initial_bond_wei: u64,
    pub challenger_bond_wei: u64,
    pub permissionless_mode: bool,
    pub optimism_portal2_address: String,
    /// The block to start from, if it is given.
    pub starting_l2_block_number: Option<u64>,
}

/// The number in a variable; `default` if it is not set, `None` if there is no number in it.
pub open spec fn number_in(var: Option<String>, default: u64) -> Option<u64> {
    match var {
        Some(s) => text::u64_value(s@),
        None => Some(default),
    }
}

/// The game type in a variable.
pub open spec fn game_type_in(var: Option<String>) -> Option<u64> {
    match number_in(var, DEFAULT_GAME_TYPE) {
        Some(n) => if n <= u32::MAX {
            Some(n)
        } else {
            None
        },
        None => None,
    }
}

/// The truth value in a variable; false if it is not set.
pub open spec fn flag_in(var: Option<String>) -> Option<bool> {
    match var {
        Some(s) => args::bool_value(s@),
        None => Some(false),
    }
}

/// The starting block in a variable, if it is set.
pub open spec fn starting_block_in(var: Option<String>) -> Option<Option<u64>> {
    match var {
        Some(s) => match text::u64_value(s@) {
            Some(n) => Some(Some(n)),
            None => None,
        },
        None => Some(None),
    }
}

impl FdgEnv {
    /// The first variable that is set to something that cannot be read.
    pub open spec fn first_bad(&self) -> Option<FdgVariable> {
        if game_type_in(self.game_type) is None {
            Some(FdgVariable::GameType)
        } else if number_in(
            self.dispute_game_finality_delay_seconds,
            DEFAULT_FINALITY_DELAY_SECS,
        ) is None {
            Some(FdgVariable::DisputeGameFinalityDelaySeconds)
        } else if number_in(self.max_challenge_duration, DEFAULT_MAX_CHALLENGE_DURATION) is None {
            Some(FdgVariable::MaxChallengeDuration)
        } else if number_in(self.max_prove_duration, DEFAULT_MAX_PROVE_DURATION) is None {
            Some(FdgVariable::MaxProveDuration)
        } else if number_in(self.fallback_timeout_fp_secs, DEFAULT_FALLBACK_TIMEOUT_SECS) is None {
            Some(FdgVariable::FallbackTimeoutFpSecs)
        } else if number_in(self.initial_bond_wei, DEFAULT_BOND_WEI) is None {
            Some(FdgVariable::InitialBondWei)
        } else if number_in(self.challenger_bond_wei, DEFAULT_BOND_WEI) is None {
            Some(FdgVariable::ChallengerBondWei)
        } else if flag_in(self.permissionless_mode) is None {
            Some(FdgVariable::PermissionlessMode)
        } else if starting_block_in(self.starting_l2_block_number) is None {
            Some(FdgVariable::StartingL2BlockNumber)
        } else {
            None
        }
    }

    /// `settings` is what the variables say, with the defaults for those that are not set.
    pub open spec fn says(&self, settings: FdgSettings) -> bool {
        &&& game_type_in(self.game_type) == Some(settings.game_type as u64)
        &&& number_in(self.dispute_game_finality_delay_seconds, DEFAULT_FINALITY_DELAY_SECS)
            == Some(settings.dispute_game_finality_delay_seconds)
        &&& number_in(self.max_challenge_duration, DEFAULT_MAX_CHALLENGE_DURATION) == Some(
            settings.max_challenge_duration,
        )
        &&& number_in(self.max_prove_duration, DEFAULT_MAX_PROVE_DURATION) == Some(
            settings.max_prove_duration,
        )
        &&& number_in(self.fallback_timeout_fp_secs, DEFAULT_FALLBACK_TIMEOUT_SECS) == Some(
            settings.fallback_timeout_fp_secs,
        )
        &&& number_in(self.initial_bond_wei, DEFAULT_BOND_WEI) == Some(settings.initial_bond_wei)
        &&& number_in(self.challenger_bond_wei, DEFAULT_BOND_WEI) == Some(
            settings.challenger_bond_wei,
        )
        &&& flag_in(self.permissionless_mode) == Some(settings.permissionless_mode)
        &&& settings.optimism_portal2_address@ == (match self.optimism_portal2_address {
            Some(s) => s@,
            None => "0x0000000000000000000000000000000000000000"@,
        })
        &&& starting_block_in(self.starting_l2_block_number) == Some(
            settings.starting_l2_block_number,
        )
    }

    /// Reads the parameters out of the environment. An error names the first variable that is set
    /// to something that cannot be read.
    pub fn read(&self) -> (r: Result<FdgSettings, FdgVariable>)
        ensures
            match r {
                Ok(settings) => self.first_bad() is None && self.says(settings),
                Err(var) => self.first_bad() == Some(var),
            },
    {
        let game_type: u32 = match read_number(&self.game_type, DEFAULT_GAME_TYPE) {
            Some(n) => if n <= u32::MAX as u64 {
                n as u32
            } else {
                return Err(FdgVariable::GameType);
            },
            None => {
                return Err(FdgVariable::GameType);
            },
        };
        let dispute_game_finality_delay_seconds: u64 = match read_number(
            &self.dispute_game_finality_delay_seconds,
            DEFAULT_FINALITY_DELAY_SECS,
        ) {
            Some(n) => n,
            None => {
                return Err(FdgVariable::DisputeGameFinalityDelaySeconds);
            },
        };
        let max_challenge_duration: u64 = match read_number(
            &self.max_challenge_duration,
            DEFAULT_MAX_CHALLENGE_DURATION,
        ) {
            Some(n) => n,
            None => {
                return Err(FdgVariable::MaxChallengeDuration);
            },
        };
        let max_prove_duration: u64 = match read_number(
            &self.max_prove_duration,
            DEFAULT_MAX_PROVE_DURATION,
        ) {
            Some(n) => n,
            None => {
                return Err(FdgVariable::MaxProveDuration);
            },
        };
        let fallback_timeout_fp_secs: u64 = match read_number(
            &self.fallback_timeout_fp_secs,
            DEFAULT_FALLBACK_TIMEOUT_SECS,
        ) {
            Some(n) => n,
            None => {
                return Err(FdgVariable::FallbackTimeoutFpSecs);
            },
        };
        let initial_bond_wei: u64 = match read_number(&self.initial_bond_wei, DEFAULT_BOND_WEI) {
            Some(n) => n,
            None => {
                return Err(FdgVariable::InitialBondWei);
            },
        };
        let challenger_bond_wei: u64 = match read_number(
            &self.challenger_bond_wei,
            DEFAULT_BOND_WEI,
        ) {
            Some(n) => n,
            None => {
                return Err(FdgVariable::ChallengerBondWei);
            },
        };
        let permissionless_mode: bool = match &self.permissionless_mode {
            Some(s) => match parse_bool(s.as_str()) {
                Some(flag) => flag,
                None => {
                    return Err(FdgVariable::PermissionlessMode);
                },
            },
            None => false,
        };
        let optimism_portal2_address = match &self.optimism_portal2_address {
            Some(s) => s.clone(),
            None => "0x0000000000000000000000000000000000000000".to_owned(),
        };
        let starting_l2_block_number: Option<u64> = match &self.starting_l2_block_number {
            Some(s) => match text::parse_u64(s.as_str()) {
                Ok(n) => Some(n),
                Err(_) => {
                    return Err(FdgVariable::StartingL2BlockNumber);
                },
            },
            None => None,
        };
        Ok(
            FdgSettings {
                game_type,
                dispute_game_finality_delay_seconds,
                max_challenge_duration,
                max_prove_duration,
                fallback_timeout_fp_secs,
                initial_bond_wei,
                challenger_bond_wei,
                permissionless_mode,
                optimism_portal2_address,
                starting_l2_block_number,
            },
        )
    }
}

fn read_number(var: &Option<String>, default: u64) -> (r: Option<u64>)
    ensures
        r == number_in(*var, default),
{
    match var {
        Some(s) => match text::parse_u64(s.as_str()) {
            Ok(n) => Some(n),
            Err(_) => None,
        },
        None => Some(default),
    }
}

/// The addresses that may take part: none are named where everyone may.
pub fn allowed_addresses(permissionless_mode: bool, addresses: Vec<String>) -> (r: Vec<String>)
    ensures
        r@ == (if permissionless_mode {
            Seq::empty()
        } else {
            addresses@
        }),
{
    if permissionless_mode {
        Vec::new()
    } else {
        addresses
    }
}

/// What the deployment shares with other contracts.
#[derive(Debug, PartialEq, Eq)]
pub struct SharedConfig {
    pub aggregation_vkey: String,
    pub range_vkey_commitment: String,
    pub rollup_config_hash: String,
    pub use_sp1_mock_verifier: bool,
    pub verifier_address: String,
}

/// All parameters of the fault dispute game.
#[derive(Debug, PartialEq, Eq)]
pub struct FaultDisputeGameConfig {
    pub aggregation_vkey: String,
    pub challenger_addresses: Vec<String>,
    pub challenger_bond_wei: u64,
    pub dispute_game_finality_delay_seconds: u64,
    pub fallback_timeout_fp_secs: u64,
    pub game_type: u32,
    pub initial_bond_wei: u64,
    pub max_challenge_duration: u64,
    pub max_prove_duration: u64,
    pub optimism_portal2_address: String,
    pub permissionless_mode: bool,
    pub proposer_addresses: Vec<String>,
    pub range_vkey_commitment: String,
    pub rollup_config_hash: String,
    pub starting_l2_block_number: u64,
    pub starting_root: String,
    pub use_sp1_mock_verifier: bool,
    pub verifier_address: String,
}

impl FdgSettings {
    /// Puts all parameters together. The lists of addresses count only where not everyone may take
    /// part.
    pub fn into_config(
        self,
        shared: SharedConfig,
        proposer_addresses: Vec<String>,
        challenger_addresses: Vec<String>,
        starting_l2_block_number: u64,
        starting_root: String,
    ) -> (r: FaultDisputeGameConfig)
        ensures
            r.aggregation_vkey == shared.aggregation_vkey,
            r.challenger_addresses@ == (if self.permissionless_mode {
                Seq::empty()
            } else {
                challenger_addresses@
            }),
            r.challenger_bond_wei == self.challenger_bond_wei,
            r.dispute_game_finality_delay_seconds == self.dispute_game_finality_delay_seconds,
            r.fallback_timeout_fp_secs == self.fallback_timeout_fp_secs,
            r.game_type == self.game_type,
            r.initial_bond_wei == self.initial_bond_wei,
            r.max_challenge_duration == self.max_challenge_duration,
            r.max_prove_duration == self.max_prove_duration,
            r.optimism_portal2_address == self.optimism_portal2_address,
            r.permissionless_mode == self.permissionless_mode,
            r.proposer_addresses@ == (if self.permissionless_mode {
                Seq::empty()
            } else {
                proposer_addresses@
            }),
            r.range_vkey_commitment == shared.range_vkey_commitment,
            r.rollup_config_hash == shared.rollup_config_hash,
            r.starting_l2_block_number == starting_l2_block_number,
            r.starting_root == starting_root,
            r.use_sp1_mock_verifier == shared.use_sp1_mock_verifier,
            r.verifier_address == shared.verifier_address,
    {
        FaultDisputeGameConfig {
            aggregation_vkey: shared.aggregation_vkey,
            challenger_addresses: allowed_addresses(self.permissionless_mode, challenger_addresses),
            challenger_bond_wei: self.challenger_bond_wei,
            dispute_game_finality_delay_seconds: self.dispute_game_finality_delay_seconds,
            fallback_timeout_fp_secs: self.fallback_timeout_fp_secs,
            game_type: self.game_type,
            initial_bond_wei: self.initial_bond_wei,
            max_challenge_duration: self.max_challenge_duration,
            max_prove_duration: self.max_prove_duration,
            optimism_portal2_address: self.optimism_portal2_address,
            permissionless_mode: self.permissionless_mode,
            proposer_addresses: allowed_addresses(self.permissionless_mode, proposer_addresses),
            range_vkey_commitment: shared.range_vkey_commitment,
            rollup_config_hash: shared.rollup_config_hash,
            starting_l2_block_number,
            starting_root,
            use_sp1_mock_verifier: shared.use_sp1_mock_verifier,
            verifier_address: shared.verifier_address,
        }
    }
}

/// The greatest number that is neither negative nor more than `a - b`.
pub open spec fn minus_or_zero(a: u64, b: u64) -> u64 {
    if a < b {
        0
    } else {
        (a - b) as u64
    }
}

/// How many blocks are produced in the time it takes a game to become final.
pub fn blocks_for_finality(delay_seconds: u64, block_time: u64) -> (r: u64)
    requires
        block_time > 0,
    ensures
        r == delay_seconds as int / block_time as int,
{
    delay_seconds / block_time
}

/// From which block on to look for the highest finalized block with data.
pub fn search_start(finalized_l2_block: u64, num_blocks_for_finality: u64) -> (r: u64)
    ensures
        r == minus_or_zero(finalized_l2_block, num_blocks_for_finality),
{
    if finalized_l2_block < num_blocks_for_finality {
        0
    } else {
        finalized_l2_block - num_blocks_for_finality
    }
}

/// The block to start from, where none is given: the highest finalized block with data minus the
/// blocks of the finality delay. `found` is that block. Where none was found, it is the block that
/// the search started from, which lies before the finality delay already.
pub fn calculated_start(
    found: Option<u64>,
    search_start: u64,
    num_blocks_for_finality: u64,
) -> (r: u64)
    ensures
        r == (match found {
            Some(n) => minus_or_zero(n, num_blocks_for_finality),
            None => search_start,
        }),
{
    match found {
        Some(finalized) => if finalized < num_blocks_for_finality {
            0
        } else {
            finalized - num_blocks_for_finality
        },
        None => search_start,
    }
}

/// The block to start from: the given one if there is one, otherwise the one that is calculated from
/// the latest finalized block and the highest finalized block with data, if that was found.
pub open spec fn start_of(
    settings: FdgSettings,
    finalized_l2_block: u64,
    block_time: u64,
    found: Option<u64>,
) -> u64 {
    let blocks = (settings.dispute_game_finality_delay_seconds as int / block_time as int) as u64;
    match (settings.starting_l2_block_number, found) {
        (Some(given), _) => given,
        (None, Some(n)) => minus_or_zero(n, blocks),
        (None, None) => minus_or_zero(finalized_l2_block, blocks),
    }
}

impl FdgSettings {
    /// From which block on to look for the highest finalized block with data; `None` if the block
    /// to start from is given.
    pub fn search_from(&self, finalized_l2_block: u64, block_time: u64) -> (r: Option<u64>)
        requires
            self.starting_l2_block_number is None ==> block_time > 0,
        ensures
            r == (if self.starting_l2_block_number is None {
                Some(start_of(*self, finalized_l2_block, block_time, None))
            } else {
                None
            }),
    {
        match self.starting_l2_block_number {
            Some(_) => None,
            None => {
                let blocks: u64 = blocks_for_finality(
                    self.dispute_game_finality_delay_seconds,
                    block_time,
                );
                Some(search_start(finalized_l2_block, blocks))
            },
        }
    }

    /// The block to start from. `finalized_l2_block` is the latest finalized block, and `found` is
    /// the highest finalized block with data, if there is one; they count only where no block is
    /// given.
    pub fn starting_block(
        &self,
        finalized_l2_block: u64,
        block_time: u64,
        found: Option<u64>,
    ) -> (r: u64)
        requires
            self.starting_l2_block_number is None ==> block_time > 0,
        ensures
            r == start_of(*self, finalized_l2_block, block_time, found),
    {
        match self.starting_l2_block_number {
            Some(given) => given,
            None => {
                let blocks: u64 = blocks_for_finality(
                    self.dispute_game_finality_delay_seconds,
                    block_time,
                );
                calculated_start(found, search_start(finalized_l2_block, blocks), blocks)
            },
        }
    }
}

/// Where no block is given, the start is the latest finalized block minus the blocks of the finality
/// delay, whether that block was found to have data or none was found.
pub proof fn start_is_finalized_less_delay(
    settings: FdgSettings,
    finalized_l2_block: u64,
    block_time: u64,
    found: Option<u64>,
)
    requires
        settings.starting_l2_block_number is None,
        block_time > 0,
        found is None || found == Some(finalized_l2_block),
    ensures
        start_of(settings, finalized_l2_block, block_time, found) == minus_or_zero(
            finalized_l2_block,
            (settings.dispute_game_finality_delay_seconds as int / block_time as int) as u64,
        ),
{
}

/// A calculated start does not lie after the block it was calculated from, and a longer delay does
/// not move it forward.
pub proof fn start_respects_delay(finalized: u64, blocks: u64, more_blocks: u64)
    requires
        blocks <= more_blocks,
    ensures
        minus_or_zero(finalized, more_blocks) <= minus_or_zero(finalized, blocks) <= finalized,
{
}

/// A number in hexadecimal digits, without leading zeros.
pub open spec fn hex_digits(n: nat) -> Seq<char>
    decreases n,
{
    if n < 16 {
        seq![text::hex_char(n as int)]
    } else {
        hex_digits(n / 16).push(text::hex_char((n % 16) as int))
    }
}

fn hex_digit(digit: u64) -> (r: &'static str)
    requires
        digit < 16,
    ensures
        r@ == seq![text::hex_char(digit as int)],
{
    proof {
        reveal_strlit("0");
        reveal_strlit("1");
        reveal_strlit("2");
        reveal_strlit("3");
        reveal_strlit("4");
        reveal_strlit("5");
        reveal_strlit("6");
        reveal_strlit("7");
        reveal_strlit("8");
        reveal_strlit("9");
        reveal_strlit("a");
        reveal_strlit("b");
        reveal_strlit("c");
        reveal_strlit("d");
        reveal_strlit("e");
        reveal_strlit("f");
    }
    let r = match digit {
        0 => "0",
        1 => "1",
        2 => "2",
        3 => "3",
        4 => "4",
        5 => "5",
        6 => "6",
        7 => "7",
        8 => "8",
        9 => "9",
        10 => "a",
        11 => "b",
        12 => "c",
        13 => "d",
        14 => "e",
        _ => "f",
    };
    assert(r@ =~= seq![text::hex_char(digit as int)]);
    r
}

fn push_hex_digits(prefix: String, n: u64) -> (r: String)
    ensures
        r@ == prefix@ + hex_digits(n as nat),
    decreases n,
{
    if n < 16 {
        prefix.concat(hex_digit(n))
    } else {
        let head = push_hex_digits(prefix, n / 16);
        let r = head.concat(hex_digit(n % 16));
        assert(r@ =~= prefix@ + hex_digits(n as nat));
        r
    }
}

/// A block number as JSON-RPC takes it: `0x` and hexadecimal digits.
pub fn block_number_hex(n: u64) -> (r: String)
    ensures
        r@ == "0x"@ + hex_digits(n as nat),
{
    push_hex_digits("0x".to_owned(), n)
}

} // verus!
