//! What the screen shows, decided from the state: the recap of timers,
//! the art for the time of day, how a form field looks, how a timer's
//! interval and state read, and whether the terminal is large enough.

use vstd::prelude::*;
use crate::app::timers_view;
use crate::timer::{Timer, TimerView};

verus! {

/// The narrowest terminal that the interface draws in.
pub const MIN_WIDTH: u16 = 80;

/// The lowest terminal that the interface draws in.
pub const MIN_HEIGHT: u16 = 20;

/// Whether a terminal of `width` by `height` cells is large enough.
pub fn terminal_fits(width: u16, height: u16) -> (r: bool)
    ensures
        r == (width >= MIN_WIDTH && height >= MIN_HEIGHT),
{
    !(width < MIN_WIDTH || height < MIN_HEIGHT)
}

/// The ending of a count's noun: none for one, `s` otherwise.
pub fn plural(n: usize) -> (r: &'static str)
    ensures
        r@ == (if n == 1 {
            ""@
        } else {
            "s"@
        }),
{
    if n == 1 {
        ""
    } else {
        "s"
    }
}

/// The number of enabled timers in `ts`.
pub open spec fn enabled_count(ts: Seq<TimerView>) -> nat
    decreases ts.len(),
{
    if ts.len() == 0 {
        0
    } else {
        enabled_count(ts.drop_last()) + if ts.last().enabled {
            1nat
        } else {
            0nat
        }
    }
}

/// How many timers are active (enabled) and how many are inactive.
pub fn recap_counts(timers: &Vec<Timer>) -> (r: (usize, usize))
    ensures
        r.0 == enabled_count(timers_view(timers@)),
        r.0 + r.1 == timers@.len(),
{
    let mut active: usize = 0;
    let mut k: usize = 0;
    while k < timers.len()
        invariant
            k <= timers@.len(),
            active == enabled_count(timers_view(timers@.take(k as int))),
            active <= k,
        decreases timers@.len() - k,
    {
        let ghost prefix = timers_view(timers@.take(k + 1));
        assert(prefix.drop_last() =~= timers_view(timers@.take(k as int)));
        assert(prefix.last() == timers@[k as int]@);
        if timers[k].enabled {
            active = active + 1;
        }
        k = k + 1;
    }
    assert(timers@.take(k as int) =~= timers@);
    (active, timers.len() - active)
}

/// The part of the day, which picks the art of the header.
#[derive(Clone, Copy, PartialEq, Eq, Debug, Structural)]
pub enum DayPart {
    Sunrise,
    Day,
    Sunset,
    Night,
}

/// The part of the day that `hour` falls in: 5 to 11 sunrise, 12 to 17
/// day, 18 to 21 sunset, else night.
pub fn day_part(hour: u32) -> (r: DayPart)
    ensures
        r == (if 5 <= hour <= 11 {
            DayPart::Sunrise
        } else if 12 <= hour <= 17 {
            DayPart::Day
        } else if 18 <= hour <= 21 {
            DayPart::Sunset
        } else {
            DayPart::Night
        }),
{
    if 5 <= hour && hour <= 11 {
        DayPart::Sunrise
    } else if 12 <= hour && hour <= 17 {
        DayPart::Day
    } else if 18 <= hour && hour <= 21 {
        DayPart::Sunset
    } else {
        DayPart::Night
    }
}

/// How a form field is drawn.
#[derive(Clone, Copy, PartialEq, Eq, Debug, Structural)]
pub enum FieldLook {
    /// The form does not have the focus.
    Plain,
    /// The field failed the last submission.
    Invalid,
    /// The field has the focus.
    Focused,
    /// Any other field of the focused form.
    Underlined,
}

/// How a field is drawn: plain while the form does not have the focus, else
/// marked invalid if it failed, else highlighted if focused, else underlined.
pub fn field_look(field_focused: bool, has_error: bool, panel_focused: bool) -> (r: FieldLook)
    ensures
        r == (if !panel_focused {
            FieldLook::Plain
        } else if has_error {
            FieldLook::Invalid
        } else if field_focused {
            FieldLook::Focused
        } else {
            FieldLook::Underlined
        }),
{
    if !panel_focused {
        FieldLook::Plain
    } else if has_error {
        FieldLook::Invalid
    } else if field_focused {
        FieldLook::Focused
    } else {
        FieldLook::Underlined
    }
}

/// The whole hours and the remaining whole minutes of `secs` seconds, as
/// the table shows an interval (`1h05m`).
pub fn interval_hours_minutes(secs: u64) -> (r: (u64, u64))
    ensures
        r.0 == secs / 3600,
        r.1 == (secs / 60) % 60,
        r.0 * 60 + r.1 == secs / 60,
{
    let mins = secs / 60;
    (mins / 60, mins % 60)
}

/// The mark in the first column of the table: filled when enabled.
pub fn enabled_mark(enabled: bool) -> (r: &'static str)
    ensures
        r@ == (if enabled {
            " \u{25a0}"@
        } else {
            " \u{25a1}"@
        }),
{
    if enabled {
        " \u{25a0}"
    } else {
        " \u{25a1}"
    }
}

} // verus!
