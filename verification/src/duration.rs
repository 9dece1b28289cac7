//! Durations of activities, counted in whole seconds.

use std::time::Duration;

use chrono::TimeDelta;

use vstd::prelude::*;

use crate::error::TimeErrorKind;
use crate::text::decimal_text;

verus! {

/// Coarse classification of activity durations.
#[derive(Debug, Clone, Copy, PartialEq, Eq, PartialOrd, Ord, Structural)]
pub enum PaceDurationRange {
    Short,
    Medium,
    Long,
}

impl PaceDurationRange {
    /// The default range is `Medium`.
    pub fn default_range() -> (r: Self)
        ensures
            r == PaceDurationRange::Medium,
    {
        PaceDurationRange::Medium
    }
}

/// The duration of an activity, in whole seconds.
#[derive(Debug, Clone, Copy, PartialEq, Eq, PartialOrd, Ord, Structural)]
pub struct PaceDuration(pub u64);

/// One part of a rendered duration: the value and the unit, with an `s` for more than
/// one of a unit that is a word; nothing for a value of zero.
pub open spec fn humantime_part(value: int, unit: Seq<char>, word: bool) -> Seq<Seq<char>> {
    if value > 0 {
        seq![decimal_text(value as nat) + unit + if word && value > 1 { seq!['s'] } else { Seq::<char>::empty() }]
    } else {
        Seq::empty()
    }
}

/// Parts joined with single spaces.
pub open spec fn joined_with_spaces(parts: Seq<Seq<char>>) -> Seq<char>
    decreases parts.len(),
{
    if parts.len() == 0 {
        Seq::empty()
    } else if parts.len() == 1 {
        parts[0]
    } else {
        joined_with_spaces(parts.drop_last()) + seq![' '] + parts.last()
    }
}

/// What `humantime` renders for a number of whole seconds: `0s` for none, else the
/// years of 365.25 days, the months of 30.44 days, the days, hours, minutes and
/// seconds that are not zero, largest first, e.g. `3661` as `1h 1m 1s`.
pub open spec fn humantime_rendering(secs: u64) -> Seq<char> {
    if secs == 0 {
        seq!['0', 's']
    } else {
        let s = secs as int;
        let ydays = s % 31_557_600;
        let mdays = ydays % 2_630_016;
        let day_secs = mdays % 86400;
        joined_with_spaces(
            humantime_part(s / 31_557_600, seq!['y', 'e', 'a', 'r'], true)
                + humantime_part(ydays / 2_630_016, seq!['m', 'o', 'n', 't', 'h'], true)
                + humantime_part(mdays / 86400, seq!['d', 'a', 'y'], true)
                + humantime_part(day_secs / 3600, seq!['h'], false)
                + humantime_part(day_secs % 3600 / 60, seq!['m'], false)
                + humantime_part(day_secs % 60, seq!['s'], false),
        )
    }
}

/// The whole seconds of a `std::time::Duration`.
pub uninterp spec fn std_duration_whole_secs(d: Duration) -> u64;

/// The `std::time::Duration` of a number of whole seconds.
pub uninterp spec fn std_duration_of_secs(secs: u64) -> Duration;

/// `humantime::format_duration` of a whole number of seconds, as text: the rendering
/// that `humantime_rendering` spells out.
#[verifier::external_body]
fn humantime_format(secs: u64) -> (r: String)
    ensures
        r@ == humantime_rendering(secs),
{
    humantime::format_duration(Duration::from_secs(secs)).to_string()
}

/// `chrono`'s `TimeDelta`, carried through as it is.
#[verifier::external_type_specification]
#[verifier::external_body]
pub struct ExTimeDelta(chrono::TimeDelta);

/// The whole seconds of a `TimeDelta`, as `TimeDelta::num_seconds` gives them.
pub uninterp spec fn chrono_delta_seconds(d: TimeDelta) -> i64;

/// The text that `chrono` writes for a `TimeDelta`.
pub uninterp spec fn chrono_delta_text(d: TimeDelta) -> Seq<char>;

/// `TimeDelta::num_seconds`: the whole seconds of a time delta.
#[verifier::external_body]
fn time_delta_seconds(d: &TimeDelta) -> (r: i64)
    ensures
        r == chrono_delta_seconds(*d),
{
    d.num_seconds()
}

/// `TimeDelta`'s `Display`: its text as `chrono` writes it.
#[verifier::external_body]
fn time_delta_text(d: &TimeDelta) -> (r: String)
    ensures
        r@ == chrono_delta_text(*d),
{
    d.to_string()
}

/// `Duration::as_secs`: the whole seconds of a duration.
#[verifier::external_body]
fn std_duration_as_secs(d: &Duration) -> (r: u64)
    ensures
        r == std_duration_whole_secs(*d),
{
    d.as_secs()
}

/// `Duration::from_secs`: the duration of exactly `secs` seconds, which has `secs`
/// whole seconds.
#[verifier::external_body]
fn std_duration_from_secs(secs: u64) -> (r: Duration)
    ensures
        r == std_duration_of_secs(secs),
        std_duration_whole_secs(r) == secs,
{
    Duration::from_secs(secs)
}

/// The numeric value of a sequence of decimal digits.
pub open spec fn decimal_value(s: Seq<char>) -> nat
    decreases s.len(),
{
    if s.len() == 0 {
        0
    } else {
        decimal_value(s.drop_last()) * 10 + ((s.last() as nat) - ('0' as nat)) as nat
    }
}

pub open spec fn is_decimal_digit(c: char) -> bool {
    '0' <= c && c <= '9'
}

pub open spec fn all_decimal_digits(s: Seq<char>) -> bool {
    forall|i: int| 0 <= i < s.len() ==> is_decimal_digit(#[trigger] s[i])
}

/// The digits that `u64::from_str` reads: everything after an optional leading `+`.
pub open spec fn unsigned_digits(s: Seq<char>) -> Seq<char> {
    if s.len() > 0 && s[0] == '+' {
        s.drop_first()
    } else {
        s
    }
}

/// What `u64::from_str` accepts: an optional `+`, then at least one decimal digit,
/// with a value that fits into 64 bits.
pub open spec fn parse_u64_spec(s: Seq<char>) -> Option<u64> {
    let body = unsigned_digits(s);
    if body.len() > 0 && all_decimal_digits(body) && decimal_value(body) <= u64::MAX {
        Some(decimal_value(body) as u64)
    } else {
        None
    }
}

/// The value of digits grows as digits are appended.
proof fn lemma_decimal_value_monotone(s: Seq<char>, i: int, j: int)
    requires
        0 <= i <= j <= s.len(),
        all_decimal_digits(s),
    ensures
        decimal_value(s.take(i)) <= decimal_value(s.take(j)),
    decreases j - i,
{
    if i < j {
        lemma_decimal_value_monotone(s, i, j - 1);
        assert(s.take(j).drop_last() =~= s.take(j - 1));
        assert(is_decimal_digit(s[j - 1]));
    }
}

impl PaceDuration {
    /// The number of seconds as a mathematical integer.
    pub open spec fn secs(self) -> nat {
        self.0 as nat
    }

    /// A duration of zero seconds.
    pub fn zero() -> (d: Self)
        ensures
            d.0 == 0,
    {
        PaceDuration(0)
    }

    pub fn is_zero(&self) -> (b: bool)
        ensures
            b == (self.0 == 0),
    {
        self.0 == 0
    }

    pub fn as_secs(&self) -> (s: u64)
        ensures
            s == self.0,
    {
        self.0
    }

    pub fn from_seconds(seconds: u64) -> (d: Self)
        ensures
            d.0 == seconds,
    {
        PaceDuration(seconds)
    }

    /// The duration as a `std::time::Duration` of the same number of seconds.
    pub fn as_duration(&self) -> (d: Duration)
        ensures
            d == std_duration_of_secs(self.0),
            std_duration_whole_secs(d) == self.0,
    {
        std_duration_from_secs(self.0)
    }

    /// Human readable rendering, e.g. `1year 1day 2h 4m 29s`.
    pub fn human_readable(&self) -> (s: String)
        ensures
            s@ == humantime_rendering(self.0),
    {
        humantime_format(self.0)
    }

    /// Subtraction that stops at zero.
    pub fn saturating_sub(self, rhs: Self) -> (d: Self)
        ensures
            d.0 == (if self.0 >= rhs.0 { self.0 - rhs.0 } else { 0 }),
    {
        match self.0.checked_sub(rhs.0) {
            Some(result) => PaceDuration(result),
            None => PaceDuration(0),
        }
    }

    /// Parses a whole number of seconds, as `u64::from_str` does.
    pub fn parse(s: &str) -> (r: Result<Self, TimeErrorKind>)
        ensures
            match parse_u64_spec(s@) {
                Some(v) => r == Ok::<PaceDuration, TimeErrorKind>(PaceDuration(v)),
                None => r matches Err(TimeErrorKind::ParsingDurationFailed(t)) && t@ == s@,
            },
    {
        let n = s.unicode_len();
        let mut start: usize = 0;
        if n > 0 && s.get_char(0) == '+' {
            start = 1;
        }
        let ghost body = unsigned_digits(s@);
        assert(body =~= s@.subrange(start as int, n as int));
        if start == n {
            return Err(TimeErrorKind::ParsingDurationFailed(String::from_str(s)));
        }
        let mut value: u64 = 0;
        let mut i: usize = start;
        while i < n
            invariant
                start <= i <= n,
                n == s@.len(),
                start < n,
                body =~= s@.subrange(start as int, n as int),
                body == unsigned_digits(s@),
                all_decimal_digits(body.take(i - start)),
                value == decimal_value(body.take(i - start)),
            decreases n - i,
        {
            let c = s.get_char(i);
            if !('0' <= c && c <= '9') {
                proof {
                    assert(body[i - start] == c);
                    assert(!all_decimal_digits(body));
                    assert(parse_u64_spec(s@).is_none());
                }
                return Err(TimeErrorKind::ParsingDurationFailed(String::from_str(s)));
            }
            let digit: u64 = (c as u64) - ('0' as u64);
            proof {
                assert(body.take(i - start + 1).drop_last() =~= body.take(i - start));
                assert(body.take(i - start + 1).last() == c);
            }
            match value.checked_mul(10) {
                Some(v10) => match v10.checked_add(digit) {
                    Some(next) => {
                        value = next;
                    },
                    None => {
                        proof {
                            self::lemma_overflow_rejects(body, i - start + 1);
                            assert(parse_u64_spec(s@).is_none());
                        }
                        return Err(TimeErrorKind::ParsingDurationFailed(String::from_str(s)));
                    },
                },
                None => {
                    proof {
                        self::lemma_overflow_rejects(body, i - start + 1);
                    }
                    return Err(TimeErrorKind::ParsingDurationFailed(String::from_str(s)));
                },
            }
            i = i + 1;
        }
        assert(body.take(n - start) =~= body);
        Ok(PaceDuration(value))
    }
}

/// Once a prefix of the digits is too large, so is the whole number.
proof fn lemma_overflow_rejects(body: Seq<char>, k: int)
    requires
        0 < k <= body.len(),
        all_decimal_digits(body.take(k)),
        decimal_value(body.take(k)) > u64::MAX,
    ensures
        parse_u64_spec_body_rejects(body),
{
    if all_decimal_digits(body) {
        lemma_decimal_value_monotone(body, k, body.len() as int);
        assert(body.take(body.len() as int) =~= body);
    }
}

/// The digit sequence `body` is not accepted.
pub open spec fn parse_u64_spec_body_rejects(body: Seq<char>) -> bool {
    !(all_decimal_digits(body) && decimal_value(body) <= u64::MAX)
}

impl std::ops::AddAssign for PaceDuration {
    /// Adds the seconds of `rhs`; beyond `u64::MAX` the sum wraps around.
    fn add_assign(&mut self, rhs: Self)
        ensures
            final(self).0 == (old(self).0 + rhs.0) % 0x1_0000_0000_0000_0000,
    {
        self.0 = self.0.wrapping_add(rhs.0);
    }
}

impl std::ops::AddAssign<u64> for PaceDuration {
    /// Adds `rhs` seconds; beyond `u64::MAX` the sum wraps around.
    fn add_assign(&mut self, rhs: u64)
        ensures
            final(self).0 == (old(self).0 + rhs) % 0x1_0000_0000_0000_0000,
    {
        self.0 = self.0.wrapping_add(rhs);
    }
}

impl std::ops::SubAssign for PaceDuration {
    /// Subtracts the seconds of `rhs`, stopping at zero.
    fn sub_assign(&mut self, rhs: Self)
        ensures
            final(self).0 == (if old(self).0 >= rhs.0 { old(self).0 - rhs.0 } else { 0 }),
    {
        match self.0.checked_sub(rhs.0) {
            Some(result) => self.0 = result,
            None => self.0 = 0,
        }
    }
}

impl std::ops::SubAssign<u64> for PaceDuration {
    /// Subtracts `rhs` seconds; below zero the difference wraps around.
    fn sub_assign(&mut self, rhs: u64)
        ensures
            final(self).0 == (old(self).0 - rhs) % 0x1_0000_0000_0000_0000,
    {
        self.0 = self.0.wrapping_sub(rhs);
    }
}

impl std::ops::Add for PaceDuration {
    type Output = Self;

    fn add(self, rhs: Self) -> (r: Self) {
        PaceDuration(self.0 + rhs.0)
    }
}

impl vstd::std_specs::ops::AddSpecImpl for PaceDuration {
    open spec fn obeys_add_spec() -> bool {
        true
    }

    open spec fn add_req(self, rhs: Self) -> bool {
        self.0 + rhs.0 <= u64::MAX
    }

    open spec fn add_spec(self, rhs: Self) -> Self {
        PaceDuration((self.0 + rhs.0) as u64)
    }
}

impl std::ops::Sub for PaceDuration {
    type Output = Self;

    fn sub(self, rhs: Self) -> (r: Self) {
        self.saturating_sub(rhs)
    }
}

impl vstd::std_specs::ops::SubSpecImpl for PaceDuration {
    open spec fn obeys_sub_spec() -> bool {
        true
    }

    open spec fn sub_req(self, rhs: Self) -> bool {
        true
    }

    open spec fn sub_spec(self, rhs: Self) -> Self {
        PaceDuration(if self.0 >= rhs.0 { (self.0 - rhs.0) as u64 } else { 0 })
    }
}

impl std::str::FromStr for PaceDuration {
    type Err = TimeErrorKind;

    /// Parses a whole number of seconds, as [`PaceDuration::parse`] does.
    fn from_str(s: &str) -> (r: Result<Self, Self::Err>)
        ensures
            match parse_u64_spec(s@) {
                Some(v) => r == Ok::<PaceDuration, TimeErrorKind>(PaceDuration(v)),
                None => r matches Err(TimeErrorKind::ParsingDurationFailed(t)) && t@ == s@,
            },
    {
        PaceDuration::parse(s)
    }
}

/// What converting a time delta gives: the duration of its whole seconds, or, for a
/// negative one, the error that names it.
pub open spec fn time_delta_outcome(d: TimeDelta, r: Result<PaceDuration, TimeErrorKind>) -> bool {
    match r {
        Ok(p) => chrono_delta_seconds(d) >= 0 && p.0 == chrono_delta_seconds(d),
        Err(e) => chrono_delta_seconds(d) < 0 && (e matches TimeErrorKind::ParsingDurationFailed(t)
            && t@ == chrono_delta_text(d)),
    }
}

impl PaceDuration {
    /// The duration of the whole seconds of a time delta; a negative one is an error
    /// that names it.
    pub fn from_time_delta(delta: &TimeDelta) -> (r: Result<Self, TimeErrorKind>)
        ensures
            time_delta_outcome(*delta, r),
    {
        let secs = time_delta_seconds(delta);
        if secs < 0 {
            Err(TimeErrorKind::ParsingDurationFailed(time_delta_text(delta)))
        } else {
            Ok(PaceDuration(secs as u64))
        }
    }
}

/// `try_from` is `PaceDuration::from_time_delta`, whose contract says what comes back.
impl TryFrom<TimeDelta> for PaceDuration {
    type Error = TimeErrorKind;

    fn try_from(delta: TimeDelta) -> Result<Self, Self::Error> {
        PaceDuration::from_time_delta(&delta)
    }
}

/// The result of `try_from` as a value: the error carries a `String`, which a value of
/// the specification cannot pin down beyond its text, so the trait's own contract is
/// not claimed; `from_time_delta` states the result.
impl vstd::std_specs::convert::TryFromSpecImpl<TimeDelta> for PaceDuration {
    open spec fn obeys_try_from_spec() -> bool {
        false
    }

    open spec fn try_from_spec(v: TimeDelta) -> Result<Self, TimeErrorKind> {
        choose|r: Result<PaceDuration, TimeErrorKind>| #[trigger] time_delta_outcome(v, r)
    }
}

impl From<Duration> for PaceDuration {
    fn from(duration: Duration) -> Self {
        PaceDuration(std_duration_as_secs(&duration))
    }
}

impl vstd::std_specs::convert::FromSpecImpl<Duration> for PaceDuration {
    open spec fn obeys_from_spec() -> bool {
        true
    }

    open spec fn from_spec(v: Duration) -> Self {
        PaceDuration(std_duration_whole_secs(v))
    }
}

impl Default for PaceDuration {
    fn default() -> (d: Self)
        ensures
            d.0 == 0,
    {
        PaceDuration(0)
    }
}

} // verus!
