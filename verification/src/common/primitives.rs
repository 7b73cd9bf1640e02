//! Dispute games as the service sees them, and the values its options are given in.

use std::num::ParseFloatError;
use std::num::ParseIntError;
use std::ops::Range;

use vstd::prelude::*;
use vstd::string::StrSliceExecFns;

use crate::common::contract::ClaimData;
use crate::common::contract::GameStatus;
use crate::common::contract::ProposalStatus;
use crate::common::fixed_bytes::Address;
use crate::common::fixed_bytes::B256;
use crate::common::text;

verus! {

/// The place of a game in the order in which the factory created them.
pub type GameIndex = u32;

/// A range of games, open on the sides that are not given.
#[derive(Clone, Copy, Debug, PartialEq, Eq)]
pub struct GameRangeInclusive {
    start: Option<GameIndex>,
    end: Option<GameIndex>,
}

impl GameRangeInclusive {
    pub closed spec fn first(self) -> Option<GameIndex> {
        self.start
    }

    pub closed spec fn last(self) -> Option<GameIndex> {
        self.end
    }

    /// Whether a game lies in the range.
    pub open spec fn has(self, game_index: GameIndex) -> bool {
        &&& self.first() is Some ==> self.first()->0 <= game_index
        &&& self.last() is Some ==> game_index <= self.last()->0
    }

    /// The index after the end of the range was applied to it, then the start.
    pub open spec fn clamped(self, game_index: GameIndex) -> GameIndex {
        let below = if self.last() is Some && self.last()->0 < game_index {
            self.last()->0
        } else {
            game_index
        };
        if self.first() is Some && below < self.first()->0 {
            self.first()->0
        } else {
            below
        }
    }

    pub fn new(start: Option<GameIndex>, end: Option<GameIndex>) -> (r: Self)
        ensures
            r.first() == start,
            r.last() == end,
    {
        GameRangeInclusive { start, end }
    }

    /// The index of the range next to `game_index`. A range whose start lies after its end gives
    /// its start.
    pub fn clamp(&self, game_index: GameIndex) -> (r: GameIndex)
        ensures
            r == self.clamped(game_index),
    {
        let mut index: GameIndex = game_index;
        if let Some(i) = self.end {
            if i < index {
                index = i;
            }
        }
        if let Some(i) = self.start {
            if index < i {
                index = i;
            }
        }
        index
    }

    /// The first game of the range; `None` if the range is open there.
    pub fn start_bound(&self) -> (r: Option<GameIndex>)
        ensures
            r == self.first(),
    {
        self.start
    }

    /// The last game of the range; `None` if the range is open there.
    pub fn end_bound(&self) -> (r: Option<GameIndex>)
        ensures
            r == self.last(),
    {
        self.end
    }

    pub fn contains(&self, game_index: GameIndex) -> (r: bool)
        ensures
            r == self.has(game_index),
    {
        let after_start: bool = match self.start {
            Some(i) => i <= game_index,
            None => true,
        };
        let before_end: bool = match self.end {
            Some(i) => game_index <= i,
            None => true,
        };
        after_start && before_end
    }

    /// Clamping gives an index of the range, unless the range is empty; it leaves the indexes of
    /// the range as they are, and doing it twice is doing it once.
    pub proof fn clamp_lands_in_range(self, game_index: GameIndex)
        ensures
            self.first() is None || self.last() is None || self.first()->0 <= self.last()->0
                ==> self.has(self.clamped(game_index)),
            self.has(game_index) ==> self.clamped(game_index) == game_index,
            self.clamped(self.clamped(game_index)) == self.clamped(game_index),
    {
    }
}

/// The number of games in a range.
pub open spec fn range_len(range: Range<GameIndex>) -> int {
    if range.start < range.end {
        range.end - range.start
    } else {
        0
    }
}

/// All games of a range, in order.
pub open spec fn all_games(range: Range<GameIndex>) -> Seq<GameIndex> {
    Seq::new(range_len(range) as nat, |i: int| (range.start + i) as GameIndex)
}

/// Games picked out of a range: no more than asked for, none twice, and all of them in order where
/// as many or more were asked for.
pub open spec fn is_pick(range: Range<GameIndex>, len: usize, games: Seq<GameIndex>) -> bool {
    if len >= range_len(range) {
        games == all_games(range)
    } else {
        &&& games.len() == len
        &&& games.no_duplicates()
        &&& forall|i: int|
            0 <= i < games.len() ==> range.start <= #[trigger] games[i] < range.end
    }
}

/// `rand::seq::index::sample` with the thread's generator: exactly `amount` distinct indices below
/// `length`, in random order. Which ones is left to chance.
#[verifier::external_body]
fn sample_indices(length: usize, amount: usize) -> (r: Vec<usize>)
    requires
        amount <= length,
    ensures
        r.len() == amount,
        r@.no_duplicates(),
        forall|i: int| 0 <= i < r.len() ==> (#[trigger] r[i]) < length,
{
    rand::seq::index::sample(&mut rand::rng(), length, amount).into_vec()
}

/// The games of a range that stand at the given places in it.
pub fn games_at(range: Range<GameIndex>, picks: &Vec<usize>) -> (r: Vec<GameIndex>)
    requires
        forall|i: int| 0 <= i < picks.len() ==> (#[trigger] picks[i]) < range_len(range),
    ensures
        r.len() == picks.len(),
        forall|i: int| 0 <= i < picks.len() ==> #[trigger] r[i] == range.start + picks[i],
{
    let mut games: Vec<GameIndex> = Vec::new();
    for i in 0..picks.len()
        invariant
            forall|i: int| 0 <= i < picks.len() ==> (#[trigger] picks[i]) < range_len(range),
            games.len() == i,
            forall|j: int| 0 <= j < i ==> #[trigger] games[j] == range.start + picks[j],
    {
        assert(picks[i as int] < range_len(range));
        games.push(range.start + picks[i] as GameIndex);
    }
    games
}

/// Picks `len` games of a range at random, or all of them where there are no more.
pub fn pick_random_games(range: Range<GameIndex>, len: usize) -> (r: Vec<GameIndex>)
    ensures
        is_pick(range, len, r@),
{
    if len == 0 || range.start >= range.end {
        let games: Vec<GameIndex> = Vec::new();
        assert(range_len(range) == 0 ==> games@ =~= all_games(range));
        return games;
    }
    let count: usize = (range.end - range.start) as usize;
    if len >= count {
        let mut games: Vec<GameIndex> = Vec::new();
        let mut i: GameIndex = range.start;
        while i < range.end
            invariant
                range.start <= i <= range.end,
                games.len() == i - range.start,
                forall|j: int| 0 <= j < games.len() ==> #[trigger] games[j] == range.start + j,
            decreases range.end - i,
        {
            games.push(i);
            i = i + 1;
        }
        assert(games@ =~= all_games(range));
        return games;
    }
    let picks = sample_indices(count, len);
    let games = games_at(range, &picks);
    assert forall|i: int, j: int|
        0 <= i < games.len() && 0 <= j < games.len() && i != j implies games[i] != games[j] by {
        assert(picks@[i] != picks@[j]);
    }
    games
}

/// What is known of a dispute game.
#[derive(Clone, Copy, Debug)]
pub struct GameSnapshot {
    pub game_type: u32,
    pub created_at: u64,
    pub game_address: Address,
    pub output_root: B256,
    pub claim_block: u64,
    pub game_status: GameStatus,
    pub is_blacklisted: bool,
    pub start_block: u64,
    pub parent_index: GameIndex,
    pub claim_data: ClaimData,
}

impl PartialEq for GameSnapshot {
    fn eq(&self, other: &Self) -> (r: bool) {
        self.game_type == other.game_type && self.created_at == other.created_at
            && self.game_address == other.game_address && self.output_root == other.output_root
            && self.claim_block == other.claim_block && self.game_status == other.game_status
            && self.is_blacklisted == other.is_blacklisted && self.start_block
            == other.start_block && self.parent_index == other.parent_index && self.claim_data
            == other.claim_data
    }
}

impl vstd::std_specs::cmp::PartialEqSpecImpl for GameSnapshot {
    open spec fn obeys_eq_spec() -> bool {
        true
    }

    open spec fn eq_spec(&self, other: &Self) -> bool {
        *self == *other
    }
}

impl GameSnapshot {
    /// The game was created at the time of retirement or before.
    pub open spec fn retired(self, retirement_timestamp: u64) -> bool {
        self.created_at <= retirement_timestamp
    }

    /// The game's claim may still turn out valid.
    pub open spec fn good(self, retirement_timestamp: u64) -> bool {
        &&& !self.is_blacklisted
        &&& !self.retired(retirement_timestamp)
        &&& self.game_status != GameStatus::CHALLENGER_WINS
    }

    /// The time to challenge or prove is up, or a proof was given.
    pub open spec fn over(self, now: u64) -> bool {
        self.claim_data.deadline < now || !self.claim_data.prover.is_zero()
    }

    /// A challenge would be accepted.
    pub open spec fn challengeable(self, now: u64) -> bool {
        &&& self.game_status == GameStatus::IN_PROGRESS
        &&& self.claim_data.status == ProposalStatus::Unchallenged
        &&& !self.over(now)
    }

    /// A game is considered "still good" if there exists a possibility that its claim is valid.
    pub fn still_good(&self, retirement_timestamp: u64) -> (r: bool)
        ensures
            r == self.good(retirement_timestamp),
    {
        if self.is_blacklisted {
            return false;
        }
        if self.created_at <= retirement_timestamp {
            return false;
        }
        if self.game_status == GameStatus::CHALLENGER_WINS {
            return false;
        }
        true
    }

    pub fn is_retired(&self, retirement_timestamp: u64) -> (r: bool)
        ensures
            r == self.retired(retirement_timestamp),
    {
        self.created_at <= retirement_timestamp
    }

    pub fn is_over(&self, now: u64) -> (r: bool)
        ensures
            r == self.over(now),
    {
        self.claim_data.deadline < now || !self.claim_data.prover.is_zero_address()
    }

    /// Whether a challenge would be accepted. Just because "we can" does not mean "we should".
    pub fn can_challenge(&self, now: u64) -> (r: bool)
        ensures
            r == self.challengeable(now),
    {
        if self.game_status != GameStatus::IN_PROGRESS {
            return false;
        }
        if self.claim_data.status != ProposalStatus::Unchallenged {
            return false;
        }
        if self.is_over(now) {
            return false;
        }
        true
    }

    /// Time does not make a game challengeable again, and a later retirement does not make a game
    /// good again.
    pub proof fn chances_only_shrink(self, now: u64, later: u64)
        requires
            now <= later,
        ensures
            self.over(now) ==> self.over(later),
            self.challengeable(later) ==> self.challengeable(now),
            self.retired(now) ==> self.retired(later),
            self.good(later) ==> self.good(now),
    {
    }
}

/// The anchor root that new games can build on.
#[derive(Clone, Copy, Debug)]
pub struct AnchorRootSnapshot {
    pub output_root: B256,
    pub claim_block: u64,
    pub anchor_game: Address,
}

impl PartialEq for AnchorRootSnapshot {
    fn eq(&self, other: &Self) -> (r: bool) {
        self.output_root == other.output_root && self.claim_block == other.claim_block
            && self.anchor_game == other.anchor_game
    }
}

impl vstd::std_specs::cmp::PartialEqSpecImpl for AnchorRootSnapshot {
    open spec fn obeys_eq_spec() -> bool {
        true
    }

    open spec fn eq_spec(&self, other: &Self) -> bool {
        *self == *other
    }
}

impl Default for AnchorRootSnapshot {
    fn default() -> (r: Self)
        ensures
            r.is_unset(),
    {
        AnchorRootSnapshot {
            output_root: B256::zero(),
            claim_block: 0,
            anchor_game: Address::zero(),
        }
    }
}

impl AnchorRootSnapshot {
    /// Nothing is set, as long as the anchor root has not been fetched.
    pub open spec fn is_unset(self) -> bool {
        self.output_root.is_zero() && self.claim_block == 0 && self.anchor_game.is_zero()
    }

    /// Whether the anchor root has still to be fetched: its root, its block and its game are zero.
    pub fn is_empty(&self) -> (r: bool)
        ensures
            r == (self.output_root.is_zero() && self.claim_block == 0
                && self.anchor_game.is_zero()),
    {
        self.output_root.is_zero_word() && self.claim_block == 0
            && self.anchor_game.is_zero_address()
    }
}

/// The error of a failed parse of a floating-point number.
#[verifier::external_type_specification]
#[verifier::external_body]
pub struct ExParseFloatError(std::num::ParseFloatError);

/// A span of time in whole seconds and nanoseconds.
#[derive(Clone, Copy, Debug, PartialEq, Eq, Structural)]
pub struct Duration {
    pub secs: u64,
    pub nanos: u32,
}

pub const NANOS_PER_SEC: u64 = 1_000_000_000;

impl Duration {
    /// The length of the span in nanoseconds.
    pub open spec fn total_nanos(self) -> int {
        self.secs * NANOS_PER_SEC + self.nanos
    }

    /// The nanoseconds make up less than a second.
    pub open spec fn wf(self) -> bool {
        self.nanos < NANOS_PER_SEC
    }

    /// There is one way to write a span of time.
    pub proof fn same_length_is_same(a: Duration, b: Duration)
        requires
            a.wf(),
            b.wf(),
            a.total_nanos() == b.total_nanos(),
        ensures
            a == b,
    {
    }

    /// `amount` units of which `per_sec` make up a second.
    fn from_fraction(amount: u64, per_sec: u64) -> (r: Duration)
        requires
            0 < per_sec <= NANOS_PER_SEC,
            NANOS_PER_SEC % per_sec == 0,
        ensures
            r.wf(),
            r.total_nanos() == amount * (NANOS_PER_SEC / per_sec),
    {
        let rest: u64 = amount % per_sec;
        let unit: u64 = NANOS_PER_SEC / per_sec;
        proof {
            let (a, p, n, u) = (amount as int, per_sec as int, NANOS_PER_SEC as int, unit as int);
            vstd::arithmetic::div_mod::lemma_fundamental_div_mod(a, p);
            vstd::arithmetic::div_mod::lemma_fundamental_div_mod(n, p);
            assert(u > 0) by (nonlinear_arith)
                requires
                    n == p * u,
                    n > 0,
                    p > 0,
            ;
            assert(rest * u < p * u) by (nonlinear_arith)
                requires
                    0 <= rest < p,
                    u > 0,
            ;
            let q = a / p;
            assert(a * u == q * n + rest * u) by (nonlinear_arith)
                requires
                    a == p * q + rest,
                    n == p * u,
            ;
        }
        Duration { secs: amount / per_sec, nanos: (rest * unit) as u32 }
    }
}

/// Why a text is no span of time.
#[derive(Debug)]
pub enum ParseDurationError {
    InvalidUnit(String),
    ParseIntError(ParseIntError),
    ParseFloatError(ParseFloatError),
    MissingAmount,
}

/// The length in nanoseconds of `amount` units of time; `None` if there is no such unit.
pub open spec fn span_nanos(amount: u64, unit: Seq<char>) -> Option<int> {
    if unit == "h"@ {
        Some(amount * 3_600_000_000_000)
    } else if unit == "m"@ {
        Some(amount * 60_000_000_000)
    } else if unit == "s"@ {
        Some(amount * 1_000_000_000)
    } else if unit == "ms"@ {
        Some(amount * 1_000_000)
    } else if unit == "us"@ {
        Some(amount * 1_000)
    } else if unit == "ns"@ {
        Some(amount as int)
    } else {
        None
    }
}

/// The span of time that `s` denotes has to be shorter than the number of seconds that can be held.
/// Only an amount of hours or minutes can be too large.
pub open spec fn duration_in_range(s: Seq<char>) -> bool {
    forall|i: int| #[trigger]
        text::is_last_digit(s, i) && text::u64_value(s.take(i + 1)) is Some ==> {
            let span = span_nanos(text::u64_value(s.take(i + 1))->0, s.skip(i + 1));
            span is Some ==> span->0 < (u64::MAX + 1) * NANOS_PER_SEC
        }
}

/// Whether the span of time that `s` denotes can be held.
pub fn is_duration_in_range(s: &str) -> (r: bool)
    ensures
        r == duration_in_range(s@),
{
    let len: usize = s.unicode_len();
    let n: usize = match text::last_digit(s) {
        Some(n) => n + 1,
        None => {
            return true;
        },
    };
    assert(text::is_last_digit(s@, n - 1));
    assert(forall|i: int| #[trigger] text::is_last_digit(s@, i) ==> i == n - 1);
    let suffix = s.substring_char(n, len);
    assert(suffix@ =~= s@.skip(n as int));
    let prefix = s.substring_char(0, n);
    assert(prefix@ =~= s@.take(n as int));
    match text::parse_u64(prefix) {
        Ok(amount) => {
            if text::str_eq(suffix, "h") {
                amount <= u64::MAX / 3600
            } else if text::str_eq(suffix, "m") {
                amount <= u64::MAX / 60
            } else {
                true
            }
        },
        Err(_) => true,
    }
}

/// Reads a span of time: an amount and a unit, such as `90s`, or a number of seconds alone.
///
/// The amount ends with the last digit. A number of seconds alone may have a fraction; `parse_secs`
/// reads it.
pub fn parse_duration<F: Fn(&str) -> Result<Duration, ParseFloatError>>(
    s: &str,
    parse_secs: F,
) -> (r: Result<Duration, ParseDurationError>)
    requires
        duration_in_range(s@),
        forall|t: &str| t@ == s@ ==> #[trigger] call_requires(parse_secs, (t,)),
    ensures
        (forall|j: int| 0 <= j < s@.len() ==> !text::is_digit(#[trigger] s@[j])) ==> r == Err::<
            Duration,
            ParseDurationError,
        >(ParseDurationError::MissingAmount),
        forall|i: int| #[trigger]
            text::is_last_digit(s@, i) ==> {
                let amount = text::u64_value(s@.take(i + 1));
                let unit = s@.skip(i + 1);
                if unit.len() == 0 {
                    match r {
                        Ok(d) => call_ensures(parse_secs, (s,), Ok(d)),
                        Err(ParseDurationError::ParseFloatError(e)) => call_ensures(
                            parse_secs,
                            (s,),
                            Err(e),
                        ),
                        Err(_) => false,
                    }
                } else if amount is None {
                    r is Err && r->Err_0 is ParseIntError
                } else if span_nanos(amount->0, unit) is None {
                    r is Err && r->Err_0 is InvalidUnit && r->Err_0->InvalidUnit_0@ == unit
                } else {
                    r is Ok && r->Ok_0.wf() && r->Ok_0.total_nanos() == span_nanos(
                        amount->0,
                        unit,
                    )->0
                }
            },
{
    let len: usize = s.unicode_len();
    let n: usize = match text::last_digit(s) {
        Some(n) => n + 1,
        None => {
            return Err(ParseDurationError::MissingAmount);
        },
    };
    assert(text::is_last_digit(s@, n - 1));
    assert(forall|i: int| #[trigger] text::is_last_digit(s@, i) ==> i == n - 1);
    let suffix = s.substring_char(n, len);
    assert(suffix@ =~= s@.skip(n as int));
    if suffix.is_empty() {
        return match parse_secs(s) {
            Ok(duration) => Ok(duration),
            Err(e) => Err(ParseDurationError::ParseFloatError(e)),
        };
    }
    let prefix = s.substring_char(0, n);
    assert(prefix@ =~= s@.take(n as int));
    let amount: u64 = match text::parse_u64(prefix) {
        Ok(amount) => amount,
        Err(e) => {
            return Err(ParseDurationError::ParseIntError(e));
        },
    };
    let duration = if text::str_eq(suffix, "h") {
        Duration { secs: amount * 3600, nanos: 0 }
    } else if text::str_eq(suffix, "m") {
        Duration { secs: amount * 60, nanos: 0 }
    } else if text::str_eq(suffix, "s") {
        Duration { secs: amount, nanos: 0 }
    } else if text::str_eq(suffix, "ms") {
        Duration::from_fraction(amount, 1_000)
    } else if text::str_eq(suffix, "us") {
        Duration::from_fraction(amount, 1_000_000)
    } else if text::str_eq(suffix, "ns") {
        Duration::from_fraction(amount, NANOS_PER_SEC)
    } else {
        return Err(ParseDurationError::InvalidUnit(suffix.to_owned()));
    };
    Ok(duration)
}

/// Why a text is no range.
#[derive(Debug, PartialEq, Eq)]
pub enum ParseRangeError<E> {
    MissingSeparator,
    InvalidStart(E),
    InvalidEnd(E),
}

/// `parse` reads a text with the characters `part` as `value`.
pub open spec fn reads<T, E, F: Fn(&str) -> Result<T, E>>(
    parse: F,
    part: Seq<char>,
    value: Result<T, E>,
) -> bool {
    exists|t: &str| t@ == part && #[trigger] call_ensures(parse, (t,), value)
}

/// Reads a range: two values with `..` between them. `parse` reads the values.
pub fn parse_range<T, E, F: Fn(&str) -> Result<T, E>>(s: &str, parse: F) -> (r: Result<
    Range<T>,
    ParseRangeError<E>,
>)
    requires
        forall|t: &str| #[trigger] call_requires(parse, (t,)),
    ensures
        (forall|j: int| !#[trigger] text::dots_at(s@, j)) <==> r == Err::<
            Range<T>,
            ParseRangeError<E>,
        >(ParseRangeError::MissingSeparator),
        forall|i: int| #[trigger]
            text::is_first_dots(s@, i) ==> match r {
                Ok(range) => {
                    &&& reads(parse, s@.take(i), Ok(range.start))
                    &&& reads(parse, s@.skip(i + 2), Ok(range.end))
                },
                Err(ParseRangeError::InvalidStart(e)) => reads(parse, s@.take(i), Err(e)),
                Err(ParseRangeError::InvalidEnd(e)) => {
                    &&& exists|start: T| #[trigger] reads(parse, s@.take(i), Ok(start))
                    &&& reads(parse, s@.skip(i + 2), Err(e))
                },
                Err(ParseRangeError::MissingSeparator) => false,
            },
{
    let len: usize = s.unicode_len();
    let n: usize = match text::first_dots(s) {
        Some(n) => n,
        None => {
            return Err(ParseRangeError::MissingSeparator);
        },
    };
    assert(text::dots_at(s@, n as int));
    assert forall|i: int| #[trigger] text::is_first_dots(s@, i) implies i == n by {
        assert(text::is_first_dots(s@, n as int));
        if i < n {
            assert(!text::dots_at(s@, i));
        }
    }
    let start_str = s.substring_char(0, n);
    let end_str = s.substring_char(n + 2, len);
    assert(start_str@ =~= s@.take(n as int));
    assert(end_str@ =~= s@.skip(n + 2));
    let start = match parse(start_str) {
        Ok(start) => start,
        Err(e) => {
            assert(reads(parse, s@.take(n as int), Err(e)));
            return Err(ParseRangeError::InvalidStart(e));
        },
    };
    assert(reads(parse, s@.take(n as int), Ok(start)));
    let end = match parse(end_str) {
        Ok(end) => end,
        Err(e) => {
            assert(reads(parse, s@.skip(n + 2), Err(e)));
            return Err(ParseRangeError::InvalidEnd(e));
        },
    };
    assert(reads(parse, s@.skip(n + 2), Ok(end)));
    Ok(start..end)
}

} // verus!
