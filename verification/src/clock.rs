//! Time as the library sees it: milliseconds on a clock that only goes
//! forward, and wall-clock moments for display.

use crate::text::{digit_char, digit, push_char};
use chrono::Local;
use std::time::Instant;
use vstd::prelude::*;

verus! {

/// `std::time::Instant`, a moment of the monotonic clock. It is carried as
/// it is.
#[verifier::external_type_specification]
#[verifier::external_body]
pub struct ExInstant(Instant);

/// One second, in the unit of the session clocks.
pub const SECOND: u64 = 1000;

/// A moment on the wall clock: seconds since 1970 in universal time, and
/// how many seconds local time is ahead of it.
#[derive(Debug, Clone, Copy, PartialEq, Eq)]
pub struct Timestamp {
    pub unix_seconds: i64,
    pub offset_seconds: i32,
}

/// A clock that counts milliseconds from the moment it was started.
pub struct Stopwatch {
    origin: Instant,
}

/// `Instant::now`: the present moment of the monotonic clock.
#[verifier::external_body]
fn instant_now() -> Instant {
    Instant::now()
}

/// `Instant::elapsed`, in whole milliseconds. Nothing is known of the
/// number: it is the machine's time.
#[verifier::external_body]
fn elapsed_millis(origin: &Instant) -> u128 {
    origin.elapsed().as_millis()
}

/// A count of milliseconds on the session clock, which ends at the largest
/// 64-bit value: a longer span reads as that value.
pub fn clamp_millis(millis: u128) -> (r: u64)
    ensures
        r == if millis <= u64::MAX {
            millis as u64
        } else {
            u64::MAX
        },
{
    if millis <= u64::MAX as u128 {
        millis as u64
    } else {
        u64::MAX
    }
}

/// `Local::now`: the present moment of the wall clock, with the offset of
/// local time. The offset is always less than a day either way. The call
/// panics on a machine whose clock reads a time before 1970.
#[verifier::external_body]
fn chrono_local_now() -> (t: Timestamp)
    ensures
        -86_400 < t.offset_seconds < 86_400,
{
    let now = Local::now();
    Timestamp { unix_seconds: now.timestamp(), offset_seconds: now.offset().local_minus_utc() }
}

/// The present moment of the wall clock.
pub fn local_now() -> (t: Timestamp)
    ensures
        -86_400 < t.offset_seconds < 86_400,
{
    chrono_local_now()
}

impl Stopwatch {
    pub fn start() -> Stopwatch {
        Stopwatch { origin: instant_now() }
    }

    /// Milliseconds since the start, on the session clock.
    pub fn millis(&self) -> u64 {
        clamp_millis(elapsed_millis(&self.origin))
    }
}

/// The moment one second after `now`, held at the end of the clock's range.
pub open spec fn second_after(now: u64) -> u64 {
    if now <= u64::MAX - SECOND {
        (now + SECOND) as u64
    } else {
        u64::MAX
    }
}

pub fn one_second_after(now: u64) -> (due: u64)
    ensures
        due == second_after(now),
{
    if now <= u64::MAX - SECOND {
        now + SECOND
    } else {
        u64::MAX
    }
}

/// How long to wait for input before the next tick is due: what is left of
/// the tick, and no time at all once it has passed.
pub fn poll_timeout(tick_rate: u64, since_last_tick: u64) -> (wait: u64)
    ensures
        wait == if since_last_tick <= tick_rate {
            tick_rate - since_last_tick
        } else {
            0
        },
{
    if since_last_tick <= tick_rate {
        tick_rate - since_last_tick
    } else {
        0
    }
}

impl Timestamp {
    /// Seconds since local midnight.
    pub open spec fn second_of_day(self) -> int {
        (self.unix_seconds + self.offset_seconds) % 86_400
    }

    pub open spec fn hour(self) -> nat {
        (self.second_of_day() / 3600) as nat
    }

    pub open spec fn minute(self) -> nat {
        ((self.second_of_day() % 3600) / 60) as nat
    }

    pub open spec fn second(self) -> nat {
        (self.second_of_day() % 60) as nat
    }

    /// The local time of day as `HH:MM:SS`.
    pub open spec fn clock(self) -> Seq<char> {
        seq![
            digit(self.hour() / 10),
            digit(self.hour() % 10),
            ':',
            digit(self.minute() / 10),
            digit(self.minute() % 10),
            ':',
            digit(self.second() / 10),
            digit(self.second() % 10),
        ]
    }

    /// The local time of day as `HH:MM:SS`.
    pub fn clock_text(&self) -> (text: String)
        ensures
            text@ == self.clock(),
    {
        let local: i128 = self.unix_seconds as i128 + self.offset_seconds as i128;
        let mut of_day: i128 = local % 86_400;
        if of_day < 0 {
            of_day = of_day + 86_400;
        }
        assert(of_day == self.second_of_day()) by {
            let total = self.unix_seconds + self.offset_seconds;
            assert(local == total);
        }
        let s: u64 = of_day as u64;
        let h: u64 = s / 3600;
        let m: u64 = (s % 3600) / 60;
        let sec: u64 = s % 60;
        let mut text = String::new();
        push_char(&mut text, digit_char(h / 10));
        push_char(&mut text, digit_char(h % 10));
        push_char(&mut text, ':');
        push_char(&mut text, digit_char(m / 10));
        push_char(&mut text, digit_char(m % 10));
        push_char(&mut text, ':');
        push_char(&mut text, digit_char(sec / 10));
        push_char(&mut text, digit_char(sec % 10));
        assert(text@ =~= self.clock());
        text
    }
}

} // verus!
