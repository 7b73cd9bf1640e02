//! How options are read: ranges of games, spans of time, and picks out of a range.

use std::num::ParseFloatError;
use std::ops::Range;

use vstd::prelude::*;

use crate::common::primitives;
use crate::common::primitives::games_at;
use crate::common::primitives::is_duration_in_range;
use crate::common::primitives::parse_duration;
use crate::common::primitives::parse_range;
use crate::common::primitives::pick_random_games;
use crate::common::primitives::AnchorRootSnapshot;
use crate::common::primitives::Duration;
use crate::common::primitives::GameIndex;
use crate::common::primitives::GameRangeInclusive;
use crate::common::primitives::ParseDurationError;
use crate::common::primitives::ParseRangeError;
use crate::common::text;

verus! {

/// Clamping gives the game of a range that is next to the given one: no game of the range is closer.
/// Where the range is empty, it gives the start of the range.
pub proof fn clamp_gives_nearest_game(
    bounds: &GameRangeInclusive,
    game_index: GameIndex,
    nearest: GameIndex,
    other: GameIndex,
    is_inside: bool,
)
    requires
        call_ensures(GameRangeInclusive::clamp, (bounds, game_index), nearest),
        call_ensures(GameRangeInclusive::contains, (bounds, other), is_inside),
    ensures
        is_inside <==> (bounds.first() is None || bounds.first()->0 <= other) && (bounds.last()
            is None || other <= bounds.last()->0),
        is_inside && game_index <= other ==> game_index <= nearest <= other,
        is_inside && other <= game_index ==> other <= nearest <= game_index,
        bounds.first() is Some && bounds.last() is Some && bounds.first()->0 > bounds.last()->0
            ==> nearest == bounds.first()->0,
{
}

/// The bounds of a range are those that it was made of.
pub proof fn range_keeps_its_bounds(
    start: Option<GameIndex>,
    end: Option<GameIndex>,
    bounds: GameRangeInclusive,
    start_bound: Option<GameIndex>,
    end_bound: Option<GameIndex>,
)
    requires
        call_ensures(GameRangeInclusive::new, (start, end), bounds),
        call_ensures(GameRangeInclusive::start_bound, (&bounds,), start_bound),
        call_ensures(GameRangeInclusive::end_bound, (&bounds,), end_bound),
    ensures
        start_bound == start,
        end_bound == end,
{
}

/// Picked games lie in the range, and none is picked twice. There are as many as asked for, or all
/// games of the range in order if there are no more.
pub proof fn picks_are_distinct_games_of_range(
    range: Range<GameIndex>,
    len: usize,
    games: Vec<GameIndex>,
    i: int,
    j: int,
)
    requires
        call_ensures(pick_random_games, (range, len), games),
        0 <= i < j < games@.len(),
    ensures
        range.start <= games@[i] < range.end,
        range.start <= games@[j] < range.end,
        games@[i] != games@[j],
        len >= range.end - range.start ==> games@[i] == range.start + i && games@[j] == range.start
            + j,
{
    if len < primitives::range_len(range) {
        assert(games@.no_duplicates());
    }
}

/// As many games are picked as asked for, but not more than there are.
pub proof fn picks_are_as_many_as_asked_for(
    range: Range<GameIndex>,
    len: usize,
    games: Vec<GameIndex>,
)
    requires
        call_ensures(pick_random_games, (range, len), games),
    ensures
        range.start >= range.end ==> games@.len() == 0,
        range.start < range.end && len <= range.end - range.start ==> games@.len() == len,
        range.start < range.end && len > range.end - range.start ==> games@.len() == range.end
            - range.start,
{
}

/// The game at a place of a range is that many games after its start.
pub proof fn places_count_from_start(
    range: Range<GameIndex>,
    picks: &Vec<usize>,
    games: Vec<GameIndex>,
    i: int,
)
    requires
        call_ensures(games_at, (range, picks), games),
        0 <= i < picks@.len(),
    ensures
        games@.len() == picks@.len(),
        games@[i] - range.start == picks@[i],
{
    assert(games[i] == range.start + picks[i]);
}

/// An anchor root has still to be fetched if all its bytes and its block are zero.
pub proof fn anchor_root_is_empty_if_all_zero(anchor: &AnchorRootSnapshot, empty: bool)
    requires
        call_ensures(AnchorRootSnapshot::is_empty, (anchor,), empty),
    ensures
        empty <==> {
            &&& forall|i: int| 0 <= i < 32 ==> #[trigger] anchor.output_root.bytes@[i] == 0
            &&& anchor.claim_block == 0
            &&& forall|i: int| 0 <= i < 20 ==> #[trigger] anchor.anchor_game.bytes@[i] == 0
        },
{
    let (root, game) = (anchor.output_root, anchor.anchor_game);
    assert(forall|i: int| 0 <= i < 32 ==> #[trigger] root.bytes@[i] == root@[i]);
    assert(forall|i: int| 0 <= i < 20 ==> #[trigger] game.bytes@[i] == game@[i]);
    if root.is_zero() {
        assert(forall|i: int| 0 <= i < 32 ==> #[trigger] root.bytes@[i] == 0);
    }
    if game.is_zero() {
        assert(forall|i: int| 0 <= i < 20 ==> #[trigger] game.bytes@[i] == 0);
    }
}

/// How many nanoseconds a unit of time has; `None` if there is no such unit.
pub open spec fn nanos_of_unit(unit: Seq<char>) -> Option<nat> {
    if unit == seq!['h'] {
        Some(60 * 60 * 1_000_000_000)
    } else if unit == seq!['m'] {
        Some(60 * 1_000_000_000)
    } else if unit == seq!['s'] {
        Some(1_000_000_000)
    } else if unit == seq!['m', 's'] {
        Some(1_000_000)
    } else if unit == seq!['u', 's'] {
        Some(1_000)
    } else if unit == seq!['n', 's'] {
        Some(1)
    } else {
        None
    }
}

proof fn units_have_spans(amount: u64, unit: Seq<char>)
    ensures
        primitives::span_nanos(amount, unit) is Some <==> nanos_of_unit(unit) is Some,
        primitives::span_nanos(amount, unit) is Some ==> primitives::span_nanos(amount, unit)->0
            == amount * nanos_of_unit(unit)->0,
{
    reveal_strlit("h");
    reveal_strlit("m");
    reveal_strlit("s");
    reveal_strlit("ms");
    reveal_strlit("us");
    reveal_strlit("ns");
    assert("h"@ =~= seq!['h']);
    assert("m"@ =~= seq!['m']);
    assert("s"@ =~= seq!['s']);
    assert("ms"@ =~= seq!['m', 's']);
    assert("us"@ =~= seq!['u', 's']);
    assert("ns"@ =~= seq!['n', 's']);
    if let (Some(span), Some(nanos)) = (
        primitives::span_nanos(amount, unit),
        nanos_of_unit(unit),
    ) {
        assert(span == amount * nanos) by (nonlinear_arith)
            requires
                nanos == 3_600_000_000_000 && span == amount * 3_600_000_000_000 || nanos
                    == 60_000_000_000 && span == amount * 60_000_000_000 || nanos == 1_000_000_000
                    && span == amount * 1_000_000_000 || nanos == 1_000_000 && span == amount
                    * 1_000_000 || nanos == 1_000 && span == amount * 1_000 || nanos == 1 && span
                    == amount,
        ;
    }
}

/// A text that consists of digits and of a unit without digits.
pub open spec fn is_amount_of(s: Seq<char>, digits: Seq<char>, unit: Seq<char>) -> bool {
    &&& s == digits + unit
    &&& digits.len() > 0
    &&& forall|i: int| 0 <= i < digits.len() ==> '0' <= #[trigger] digits[i] && digits[i] <= '9'
    &&& forall|i: int| 0 <= i < unit.len() ==> !('0' <= #[trigger] unit[i] && unit[i] <= '9')
}

proof fn amount_ends_with_last_digit(s: Seq<char>, digits: Seq<char>, unit: Seq<char>)
    requires
        is_amount_of(s, digits, unit),
    ensures
        text::is_last_digit(s, digits.len() - 1),
        s.take(digits.len() as int) == digits,
        s.skip(digits.len() as int) == unit,
        text::u64_value(digits) == (if text::decimal(digits) <= u64::MAX {
            Some(text::decimal(digits) as u64)
        } else {
            None
        }),
{
    let n = digits.len() as int;
    assert(s[n - 1] == digits[n - 1]);
    assert forall|j: int| n - 1 < j < s.len() implies !text::is_digit(#[trigger] s[j]) by {
        assert(s[j] == unit[j - n]);
    }
    assert(s.take(n) =~= digits);
    assert(s.skip(n) =~= unit);
    assert('0' <= digits[0] && digits[0] <= '9');
    assert(text::unsigned_part(digits) == digits);
    assert forall|i: int| 0 <= i < digits.len() implies text::is_digit(#[trigger] digits[i]) by {}
}

/// An amount and a unit denote as many nanoseconds as the amount times the unit has. An amount that
/// is too large and a unit that does not exist are refused.
pub proof fn duration_is_amount_times_unit<F: Fn(&str) -> Result<Duration, ParseFloatError>>(
    s: &str,
    parse_secs: F,
    r: Result<Duration, ParseDurationError>,
    digits: Seq<char>,
    unit: Seq<char>,
)
    requires
        call_ensures(parse_duration::<F>, (s, parse_secs), r),
        is_amount_of(s@, digits, unit),
        unit.len() > 0,
    ensures
        text::decimal(digits) > u64::MAX ==> r is Err && r->Err_0 is ParseIntError,
        text::decimal(digits) <= u64::MAX && nanos_of_unit(unit) is None ==> r is Err && r->Err_0
            is InvalidUnit && r->Err_0->InvalidUnit_0@ == unit,
        text::decimal(digits) <= u64::MAX && nanos_of_unit(unit) is Some ==> r is Ok
            && r->Ok_0.nanos < 1_000_000_000 && r->Ok_0.secs * 1_000_000_000 + r->Ok_0.nanos
            == text::decimal(digits) * nanos_of_unit(unit)->0,
{
    amount_ends_with_last_digit(s@, digits, unit);
    let i = digits.len() - 1;
    assert(text::is_last_digit(s@, i));
    assert(s@.take(i + 1) == digits && s@.skip(i + 1) == unit);
    if text::decimal(digits) <= u64::MAX {
        units_have_spans(text::decimal(digits) as u64, unit);
    }
}

/// A text that ends with a digit has no unit: it is a number of seconds, and the result is what
/// `parse_secs` reads it as.
pub proof fn bare_number_is_seconds<F: Fn(&str) -> Result<Duration, ParseFloatError>>(
    s: &str,
    parse_secs: F,
    r: Result<Duration, ParseDurationError>,
)
    requires
        call_ensures(parse_duration::<F>, (s, parse_secs), r),
        s@.len() > 0,
        '0' <= s@.last() && s@.last() <= '9',
    ensures
        r matches Ok(duration) ==> call_ensures(parse_secs, (s,), Ok(duration)),
        r matches Err(e) ==> e is ParseFloatError,
        r matches Err(ParseDurationError::ParseFloatError(e)) ==> call_ensures(
            parse_secs,
            (s,),
            Err(e),
        ),
{
    assert(text::is_last_digit(s@, s@.len() - 1));
    assert(s@.skip(s@.len() as int).len() == 0);
}

/// A text without any digit denotes no span of time.
pub proof fn duration_needs_amount<F: Fn(&str) -> Result<Duration, ParseFloatError>>(
    s: &str,
    parse_secs: F,
    r: Result<Duration, ParseDurationError>,
)
    requires
        call_ensures(parse_duration::<F>, (s, parse_secs), r),
        forall|i: int| 0 <= i < s@.len() ==> !text::is_digit(#[trigger] s@[i]),
    ensures
        r == Err::<Duration, ParseDurationError>(ParseDurationError::MissingAmount),
{
}

/// A span of time can be held if it is shorter than 2 to the power of 64 seconds.
pub proof fn range_of_durations_is_checked(
    s: &str,
    in_range: bool,
    digits: Seq<char>,
    unit: Seq<char>,
)
    requires
        call_ensures(is_duration_in_range, (s,), in_range),
        is_amount_of(s@, digits, unit),
        text::decimal(digits) <= u64::MAX,
        nanos_of_unit(unit) is Some,
    ensures
        in_range <==> text::decimal(digits) * nanos_of_unit(unit)->0 < 0x1_0000_0000_0000_0000
            * 1_000_000_000,
{
    amount_ends_with_last_digit(s@, digits, unit);
    let n = digits.len() as int;
    units_have_spans(text::decimal(digits) as u64, unit);
    assert(text::is_last_digit(s@, n - 1));
    assert forall|i: int| #[trigger] text::is_last_digit(s@, i) implies i == n - 1 by {
        if i < n - 1 {
            assert(text::is_digit(s@[n - 1]));
        } else if i > n - 1 {
            assert(text::is_digit(s@[i]));
        }
    }
}

/// A range is read as the text before its first two dots and the text after them. Where one of them
/// cannot be read, it is the reason; where there are no two dots, that is.
pub proof fn range_is_split_at_dots<T, E, F: Fn(&str) -> Result<T, E>>(
    s: &str,
    parse: F,
    r: Result<Range<T>, ParseRangeError<E>>,
    start: Seq<char>,
    end: Seq<char>,
)
    requires
        call_ensures(parse_range::<T, E, F>, (s, parse), r),
        s@ == start + seq!['.', '.'] + end,
        forall|i: int|
            0 <= i < start.len() ==> !(#[trigger] start[i] == '.' && (i + 1 == start.len()
                || start[i + 1] == '.')),
    ensures
        r matches Ok(range) ==> primitives::reads(parse, start, Ok(range.start))
            && primitives::reads(parse, end, Ok(range.end)),
        r matches Err(ParseRangeError::InvalidStart(e)) ==> primitives::reads(
            parse,
            start,
            Err(e),
        ),
        r matches Err(ParseRangeError::InvalidEnd(e)) ==> primitives::reads(parse, end, Err(e)),
        !(r matches Err(ParseRangeError::MissingSeparator)),
{
    let n = start.len() as int;
    assert(s@[n] == '.' && s@[n + 1] == '.');
    assert forall|j: int| j < n implies !#[trigger] text::dots_at(s@, j) by {
        if text::dots_at(s@, j) {
            assert(s@[j] == start[j]);
            if j + 1 < n {
                assert(s@[j + 1] == start[j + 1]);
            }
        }
    }
    assert(text::dots_at(s@, n));
    assert(text::is_first_dots(s@, n));
    assert(s@.take(n) =~= start);
    assert(s@.skip(n + 2) =~= end);
}

} // verus!
