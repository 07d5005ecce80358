//! Timers and the parsing of their fields: the interval (`30m`, `1h30m`)
//! and the times of day (`HH:MM`).

use vstd::prelude::*;
use vstd::string::*;
use chrono::{NaiveTime, Timelike};
use crate::text::{
    all_digits, decimal_u64, digits_value, drop_trailing_white_space, is_digit, is_white_space,
    unsigned_digits, lemma_decimal_u64_short, lemma_trimmed_len, parse_u64,
    skip_white_space, trim, trimmed,
};

verus! {

/// A daily-recurring window: it rings at `start`, then every `interval`
/// while the result is not after `end`.
///
/// `start` and `end` are times of day in seconds past midnight, `interval`
/// is a length of time in seconds.
#[derive(Debug, Clone)]
pub struct Timer {
    pub name: String,
    pub start: u32,
    pub end: u32,
    pub interval: u64,
    pub enabled: bool,
}

/// A timer as a mathematical value.
pub struct TimerView {
    pub name: Seq<char>,
    pub start: u32,
    pub end: u32,
    pub interval: u64,
    pub enabled: bool,
}

impl View for Timer {
    type V = TimerView;

    open spec fn view(&self) -> TimerView {
        TimerView {
            name: self.name@,
            start: self.start,
            end: self.end,
            interval: self.interval,
            enabled: self.enabled,
        }
    }
}

/// The position of the first `c` in `s`.
pub open spec fn first_index_of(s: Seq<char>, c: char) -> Option<int>
    decreases s.len(),
{
    if s.len() == 0 {
        None
    } else if s[0] == c {
        Some(0)
    } else {
        match first_index_of(s.drop_first(), c) {
            Some(i) => Some(i + 1),
            None => None,
        }
    }
}

proof fn lemma_first_index_of(s: Seq<char>, c: char, i: int)
    requires
        0 <= i <= s.len(),
        forall|k: int| 0 <= k < i ==> #[trigger] s[k] != c,
        i == s.len() || s[i] == c,
    ensures
        first_index_of(s, c) == (if i == s.len() {
            None::<int>
        } else {
            Some(i)
        }),
    decreases i,
{
    if i > 0 {
        let t = s.drop_first();
        assert(s[0] != c);
        assert forall|k: int| 0 <= k < i - 1 implies #[trigger] t[k] != c by {
            assert(s[k + 1] != c);
        }
        if i < s.len() {
            assert(t[i - 1] == s[i]);
        }
        lemma_first_index_of(t, c, i - 1);
    }
}

/// The hours and minutes that an interval spells, before they are added
/// up: after trimming, an optional `<hours>h` and then either nothing or
/// `<minutes>m`, each number in the form `u64::from_str` accepts.
pub open spec fn interval_parts(s: Seq<char>) -> Option<(u64, u64)> {
    let t = trimmed(s);
    let split: Option<(u64, Seq<char>)> = match first_index_of(t, 'h') {
        Some(i) => match decimal_u64(t.take(i)) {
            Some(h) => Some((h, t.skip(i + 1))),
            None => None,
        },
        None => Some((0u64, t)),
    };
    match split {
        None => None,
        Some((h, rest)) => if rest.len() > 0 && rest.last() == 'm' {
            match decimal_u64(rest.drop_last()) {
                Some(m) => Some((h, m)),
                None => None,
            }
        } else if rest.len() == 0 {
            Some((h, 0u64))
        } else {
            None
        },
    }
}

/// The length in seconds of `hours` hours and `minutes` minutes.
pub open spec fn interval_total(parts: (u64, u64)) -> int {
    parts.0 * 3600 + parts.1 * 60
}

/// The interval that `s` spells has a length that fits in a `u64`.
pub open spec fn interval_fits(s: Seq<char>) -> bool {
    match interval_parts(s) {
        Some(p) => interval_total(p) <= u64::MAX,
        None => true,
    }
}

/// The interval that `s` spells, in seconds; `None` when `s` does not spell
/// one or when its length is zero.
pub open spec fn interval_seconds(s: Seq<char>) -> Option<u64> {
    match interval_parts(s) {
        Some(p) => if interval_total(p) > 0 {
            Some(interval_total(p) as u64)
        } else {
            None
        },
        None => None,
    }
}

fn split_interval(s: &str) -> (r: Option<(u64, u64)>)
    ensures
        r == interval_parts(s@),
{
    let t = trim(s);
    let n = t.unicode_len();
    let mut i: usize = 0;
    loop
        invariant
            n == t@.len(),
            i <= n,
            forall|k: int| 0 <= k < i ==> #[trigger] t@[k] != 'h',
        ensures
            i <= n,
            forall|k: int| 0 <= k < i ==> #[trigger] t@[k] != 'h',
            i == n || t@[i as int] == 'h',
        decreases n - i,
    {
        if i == n {
            break;
        }
        if t.get_char(i) == 'h' {
            break;
        }
        i = i + 1;
    }
    proof {
        lemma_first_index_of(t@, 'h', i as int);
    }
    let hours: u64;
    let rest_start: usize;
    if i < n {
        match parse_u64(t.substring_char(0, i)) {
            Some(h) => {
                hours = h;
                rest_start = i + 1;
            },
            None => {
                return None;
            },
        }
    } else {
        hours = 0;
        rest_start = 0;
        assert(t@.skip(0) =~= t@);
    }
    let rest = t.substring_char(rest_start, n);
    assert(rest@ =~= t@.skip(rest_start as int));
    let rn = rest.unicode_len();
    if rn > 0 && rest.get_char(rn - 1) == 'm' {
        let digits = rest.substring_char(0, rn - 1);
        assert(digits@ =~= rest@.drop_last());
        match parse_u64(digits) {
            Some(m) => Some((hours, m)),
            None => None,
        }
    } else if rn == 0 {
        Some((hours, 0))
    } else {
        None
    }
}

/// Whether the interval that `s` spells has a length that fits in a `u64`,
/// which `parse_interval` needs.
pub fn interval_in_range(s: &str) -> (r: bool)
    ensures
        r == interval_fits(s@),
{
    match split_interval(s) {
        Some((h, m)) => (h as u128) * 3600 + (m as u128) * 60 <= u64::MAX as u128,
        None => true,
    }
}

/// Parses an interval such as `30m`, `2h` or `1h30m` into seconds.
/// Surrounding whitespace is ignored; an interval of length zero is `None`.
pub fn parse_interval(s: &str) -> (r: Option<u64>)
    requires
        interval_fits(s@),
    ensures
        r == interval_seconds(s@),
{
    match split_interval(s) {
        Some((h, m)) => {
            let total = h * 3600 + m * 60;
            if total > 0 {
                Some(total)
            } else {
                None
            }
        },
        None => None,
    }
}

/// The number of decimal digits at the start of `s`, up to two.
pub open spec fn leading_digit_count(s: Seq<char>) -> int {
    if s.len() >= 1 && is_digit(s[0]) {
        if s.len() >= 2 && is_digit(s[1]) {
            2
        } else {
            1
        }
    } else {
        0
    }
}

/// The time of day, in seconds past midnight, that `s` spells in the format
/// `%H:%M`: optional whitespace, one or two digits of hour (at most 23), `:`,
/// optional whitespace, one or two digits of minute (at most 59), and nothing
/// after.
pub open spec fn clock_time_seconds(s: Seq<char>) -> Option<u32> {
    let a = skip_white_space(s);
    let n1 = leading_digit_count(a);
    let b = a.skip(n1);
    if n1 == 0 || b.len() == 0 || b[0] != ':' {
        None
    } else {
        let c = skip_white_space(b.drop_first());
        let n2 = leading_digit_count(c);
        let h = digits_value(a.take(n1));
        let m = digits_value(c.take(n2));
        if n2 == 0 || c.len() != n2 || h > 23 || m > 59 {
            None
        } else {
            Some((h * 3600 + m * 60) as u32)
        }
    }
}

/// `chrono::NaiveTime::parse_from_str(s, "%H:%M")`, given as the seconds past
/// midnight of the parsed time (`Timelike::num_seconds_from_midnight`).
/// Claimed: chrono's parser for that format skips whitespace before each
/// number, reads one or two ASCII digits for each, needs the `:` right after
/// the hour, checks hour <= 23 and minute <= 59, takes the seconds as zero and
/// fails on anything left over.
#[verifier::external_body]
fn chrono_parse_hh_mm(s: &str, fmt: &str) -> (r: Option<u32>)
    requires
        fmt@ == "%H:%M"@,
    ensures
        r == clock_time_seconds(s@),
{
    match NaiveTime::parse_from_str(s, fmt) {
        Ok(t) => Some(t.num_seconds_from_midnight()),
        Err(_) => None,
    }
}

/// Parses a time of day written `HH:MM` into seconds past midnight.
pub fn parse_clock_time(s: &str) -> (r: Option<u32>)
    ensures
        r == clock_time_seconds(s@),
{
    chrono_parse_hh_mm(s, "%H:%M")
}

/// `chrono::NaiveTime::from_hms_opt(hour, min, sec)`, given as seconds past
/// midnight. Claimed, as chrono documents: `None` on an hour, minute or
/// second out of range, else the time `hour:min:sec`.
#[verifier::external_body]
fn chrono_from_hms(hour: u32, min: u32, sec: u32) -> (r: Option<u32>)
    ensures
        r == (if hour < 24 && min < 60 && sec < 60 {
            Some((hour * 3600 + min * 60 + sec) as u32)
        } else {
            None
        }),
{
    match NaiveTime::from_hms_opt(hour, min, sec) {
        Some(t) => Some(t.num_seconds_from_midnight()),
        None => None,
    }
}

/// The time of day `hour:min`, in seconds past midnight; `None` when the hour
/// or minute is out of range.
pub fn clock_time(hour: u32, min: u32) -> (r: Option<u32>)
    ensures
        r == (if hour < 24 && min < 60 {
            Some((hour * 3600 + min * 60) as u32)
        } else {
            None
        }),
{
    chrono_from_hms(hour, min, 0)
}

} // verus!

verus! {

/// An interval that parses is a positive whole number of minutes.
pub proof fn law_interval_whole_minutes(s: Seq<char>)
    requires
        interval_fits(s),
    ensures
        interval_seconds(s) matches Some(v) ==> v > 0 && v % 60 == 0,
{
    if let Some((h, m)) = interval_parts(s) {
        assert((h * 3600 + m * 60) % 60 == 0) by (nonlinear_arith);
    }
}

/// An interval of at most six characters, as many as the form's field
/// holds, never overflows: parsing it always has a result.
pub proof fn law_short_interval_fits(s: Seq<char>)
    requires
        s.len() <= 6,
    ensures
        interval_fits(s),
{
    let t = trimmed(s);
    lemma_trimmed_len(s);
    if let Some((h, m)) = interval_parts(s) {
        let rest: Seq<char> = match first_index_of(t, 'h') {
            Some(i) => {
                lemma_first_index_in_range(t, 'h');
                lemma_decimal_u64_short(t.take(i));
                t.skip(i + 1)
            },
            None => t,
        };
        if rest.len() > 0 && rest.last() == 'm' {
            lemma_decimal_u64_short(rest.drop_last());
        }
        assert(h < 1000000 && m < 1000000);
        assert(interval_total((h, m)) <= u64::MAX) by (nonlinear_arith)
            requires
                h < 1000000,
                m < 1000000,
        ;
    }
}

proof fn lemma_first_index_in_range(s: Seq<char>, c: char)
    ensures
        first_index_of(s, c) matches Some(i) ==> 0 <= i < s.len() && s[i] == c,
    decreases s.len(),
{
    if s.len() > 0 && s[0] != c {
        lemma_first_index_in_range(s.drop_first(), c);
    }
}

/// A time of day that parses is before midnight and falls on a whole minute.
pub proof fn law_clock_time_in_day(s: Seq<char>)
    ensures
        clock_time_seconds(s) matches Some(v) ==> v < 86400 && v % 60 == 0,
{
}

} // verus!

verus! {

proof fn lemma_trimmed_unchanged(s: Seq<char>)
    requires
        s.len() > 0,
        !is_white_space(s[0]),
        !is_white_space(s.last()),
    ensures
        trimmed(s) == s,
{
    assert(skip_white_space(s) == s);
    assert(drop_trailing_white_space(s) == s);
}

proof fn lemma_decimal_of_digits(d: Seq<char>)
    requires
        d.len() > 0,
        all_digits(d),
        digits_value(d) <= u64::MAX,
    ensures
        decimal_u64(d) == Some(digits_value(d) as u64),
{
    assert(is_digit(d[0]));
    assert(unsigned_digits(d) == d);
}

proof fn lemma_no_h_in_digits_m(m: Seq<char>)
    requires
        all_digits(m),
    ensures
        first_index_of(m + seq!['m'], 'h') is None,
{
    let s = m + seq!['m'];
    assert forall|k: int| 0 <= k < s.len() implies #[trigger] s[k] != 'h' by {
        if k < m.len() {
            assert(is_digit(m[k]));
        }
    }
    lemma_first_index_of(s, 'h', s.len() as int);
}

/// Minutes alone, `<m>m` with `m` written in decimal digits, read as `m`
/// minutes, whether or not `m` is below 60.
pub proof fn law_interval_minutes(m: Seq<char>)
    requires
        m.len() > 0,
        all_digits(m),
        0 < digits_value(m) * 60 <= u64::MAX,
    ensures
        interval_fits(m + seq!['m']),
        interval_seconds(m + seq!['m']) == Some((digits_value(m) * 60) as u64),
{
    let s = m + seq!['m'];
    assert(is_digit(m[0]));
    assert(s[0] == m[0]);
    lemma_trimmed_unchanged(s);
    lemma_no_h_in_digits_m(m);
    assert(s.drop_last() =~= m);
    lemma_decimal_of_digits(m);
    assert(interval_parts(s) == Some((0u64, digits_value(m) as u64)));
}

/// Hours alone, `<h>h` with `h` written in decimal digits, read as `h`
/// hours.
pub proof fn law_interval_hours(h: Seq<char>)
    requires
        h.len() > 0,
        all_digits(h),
        0 < digits_value(h) * 3600 <= u64::MAX,
    ensures
        interval_fits(h + seq!['h']),
        interval_seconds(h + seq!['h']) == Some((digits_value(h) * 3600) as u64),
{
    let s = h + seq!['h'];
    assert(is_digit(h[0]));
    assert(s[0] == h[0]);
    lemma_trimmed_unchanged(s);
    assert forall|k: int| 0 <= k < h.len() implies #[trigger] s[k] != 'h' by {
        assert(is_digit(h[k]));
    }
    lemma_first_index_of(s, 'h', h.len() as int);
    assert(s.take(h.len() as int) =~= h);
    assert(s.skip(h.len() as int + 1) =~= Seq::<char>::empty());
    lemma_decimal_of_digits(h);
    assert(interval_parts(s) == Some((digits_value(h) as u64, 0u64)));
}

/// Hours and minutes, `<h>h<m>m` with both written in decimal digits, read
/// as `h` hours and `m` minutes added up, whether or not `m` is below 60.
pub proof fn law_interval_hours_and_minutes(h: Seq<char>, m: Seq<char>)
    requires
        h.len() > 0,
        all_digits(h),
        m.len() > 0,
        all_digits(m),
        0 < digits_value(h) * 3600 + digits_value(m) * 60 <= u64::MAX,
    ensures
        interval_fits(h + seq!['h'] + m + seq!['m']),
        interval_seconds(h + seq!['h'] + m + seq!['m']) == Some(
            (digits_value(h) * 3600 + digits_value(m) * 60) as u64,
        ),
{
    let s = h + seq!['h'] + m + seq!['m'];
    assert(is_digit(h[0]));
    assert(s[0] == h[0]);
    lemma_trimmed_unchanged(s);
    assert forall|k: int| 0 <= k < h.len() implies #[trigger] s[k] != 'h' by {
        assert(is_digit(h[k]));
    }
    assert(s[h.len() as int] == 'h');
    lemma_first_index_of(s, 'h', h.len() as int);
    assert(s.take(h.len() as int) =~= h);
    let rest = s.skip(h.len() as int + 1);
    assert(rest =~= m + seq!['m']);
    assert(rest.drop_last() =~= m);
    assert(digits_value(h) <= u64::MAX && digits_value(m) <= u64::MAX) by (nonlinear_arith)
        requires
            digits_value(h) * 3600 + digits_value(m) * 60 <= u64::MAX,
    ;
    lemma_decimal_of_digits(h);
    lemma_decimal_of_digits(m);
    assert(interval_parts(s) == Some((digits_value(h) as u64, digits_value(m) as u64)));
}

} // verus!
