//! A moment in the past, in the words a recents row wants: "just now",
//! "yesterday", "5 days ago".

use vstd::prelude::*;
use vstd::string::StringExecFns;
use std::time::{Duration, SystemTime};
use crate::text::{decimal, push_decimal};

verus! {

#[verifier::external_type_specification]
#[verifier::external_body]
pub struct ExSystemTime(SystemTime);

/// The words for a moment `elapsed_millis` milliseconds ago. Coarse on
/// purpose: minutes for the first hour, then the day, then days, then
/// thirty-day months.
pub open spec fn phrase(elapsed_millis: nat) -> Seq<char> {
    let minutes = elapsed_millis / 1000 / 60;
    let hours = minutes / 60;
    let days = hours / 24;
    if minutes < 2 {
        "just now"@
    } else if hours < 1 {
        decimal(minutes) + " minutes ago"@
    } else if days < 1 {
        "today"@
    } else if days == 1 {
        "yesterday"@
    } else if days < 30 {
        decimal(days) + " days ago"@
    } else {
        decimal(days / 30) + " months ago"@
    }
}

/// How long before `now_millis` a moment at `opened_at_millis` was, none
/// when it is not before.
pub open spec fn elapsed(now_millis: u64, opened_at_millis: u64) -> nat {
    if now_millis > opened_at_millis {
        (now_millis - opened_at_millis) as nat
    } else {
        0
    }
}

/// `SystemTime::now`: the system clock's reading. Nothing is claimed of
/// it: it is whatever the clock says.
#[verifier::external_body]
fn system_now() -> SystemTime {
    SystemTime::now()
}

/// `SystemTime::duration_since(UNIX_EPOCH)`: how long after the Unix epoch
/// the reading is, or nothing when the reading is earlier than the epoch.
/// Nothing is claimed of the duration: it comes from the clock.
#[verifier::external_body]
fn since_epoch(reading: &SystemTime) -> Option<Duration> {
    match reading.duration_since(std::time::UNIX_EPOCH) {
        Ok(duration) => Some(duration),
        Err(_) => None,
    }
}

/// `Duration::as_millis`: the whole milliseconds in a duration. The
/// duration is opaque here, so nothing is claimed of the count.
#[verifier::external_body]
fn whole_millis(duration: &Duration) -> u128 {
    duration.as_millis()
}

/// The clock, in milliseconds since the Unix epoch; zero when it reads
/// earlier than the epoch, and cut to 64 bits.
fn now_millis() -> u64 {
    let reading = system_now();
    match since_epoch(&reading) {
        Some(duration) => whole_millis(&duration) as u64,
        None => 0,
    }
}

/// The words for a moment at `opened_at_millis` as seen at `now_millis`,
/// both in milliseconds since the Unix epoch. A moment that is not in the
/// past is "just now".
pub fn when_phrase_at(opened_at_millis: u64, now_millis: u64) -> (s: String)
    ensures
        s@ == phrase(elapsed(now_millis, opened_at_millis)),
{
    let elapsed_millis = if now_millis > opened_at_millis {
        now_millis - opened_at_millis
    } else {
        0
    };
    let seconds = elapsed_millis / 1000;
    let minutes = seconds / 60;
    let hours = minutes / 60;
    let days = hours / 24;
    if minutes < 2 {
        String::from_str("just now")
    } else if hours < 1 {
        let mut s = String::new();
        push_decimal(&mut s, minutes);
        s.append(" minutes ago");
        s
    } else if days < 1 {
        String::from_str("today")
    } else if days == 1 {
        String::from_str("yesterday")
    } else if days < 30 {
        let mut s = String::new();
        push_decimal(&mut s, days);
        s.append(" days ago");
        s
    } else {
        let mut s = String::new();
        push_decimal(&mut s, days / 30);
        s.append(" months ago");
        s
    }
}

/// A moment in the past, in the words a recents row wants, as seen by the
/// system clock now. Whatever the clock reads, the words are those of
/// [`when_phrase_at`] for some reading of it.
pub fn when_phrase(opened_at_millis: u64) -> (s: String)
    ensures
        exists|now_millis: u64| s@ == phrase(elapsed(now_millis, opened_at_millis)),
{
    let now = now_millis();
    when_phrase_at(opened_at_millis, now)
}


/// The words follow the whole time elapsed: under two minutes is "just
/// now", then whole minutes up to the hour, "today" for the rest of the
/// first day, "yesterday" for the whole second day, whole days up to the
/// thirtieth, and then whole thirty-day months.
pub proof fn phrases_follow_the_elapsed_time(e: nat)
    ensures
        e < 120_000 ==> phrase(e) == "just now"@,
        120_000 <= e < 3_600_000 ==> phrase(e) == decimal(e / 60_000) + " minutes ago"@,
        3_600_000 <= e < 86_400_000 ==> phrase(e) == "today"@,
        86_400_000 <= e < 172_800_000 ==> phrase(e) == "yesterday"@,
        172_800_000 <= e < 2_592_000_000 ==> phrase(e) == decimal(e / 86_400_000) + " days ago"@,
        2_592_000_000 <= e ==> phrase(e) == decimal(e / 2_592_000_000) + " months ago"@,
{
    let x = e as int;
    vstd::arithmetic::div_mod::lemma_div_denominator(x, 1000, 60);
    vstd::arithmetic::div_mod::lemma_div_denominator(x, 60_000, 60);
    vstd::arithmetic::div_mod::lemma_div_denominator(x, 3_600_000, 24);
    vstd::arithmetic::div_mod::lemma_div_denominator(x, 86_400_000, 30);
    let minutes = e / 1000 / 60;
    let hours = minutes / 60;
    let days = hours / 24;
    assert(minutes == e / 60_000);
    assert(hours == e / 3_600_000);
    assert(days == e / 86_400_000);
    assert(days / 30 == e / 2_592_000_000);
}

} // verus!
