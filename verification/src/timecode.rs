//! Timecode: a frame count spelled hh:mm:ss:ff, non-drop-frame, the way
//! the ruler and the tray spell a moment.

use vstd::prelude::*;
use crate::text::{decimal2, push_char, push_decimal2};

verus! {

/// The hours, minutes, seconds and frames that `frames` at `rate` frames a
/// second come to.
pub open spec fn timecode_fields(frames: nat, rate: nat) -> (nat, nat, nat, nat)
    recommends
        rate >= 1,
{
    let whole = frames / rate;
    (whole / 3600, (whole / 60) % 60, whole % 60, frames % rate)
}

/// `frames` at `rate` frames a second as hh:mm:ss:ff: each field at least
/// two digits, the hours as many as they need.
pub open spec fn timecode_text(frames: nat, rate: nat) -> Seq<char>
    recommends
        rate >= 1,
{
    let (hours, minutes, seconds, rest) = timecode_fields(frames, rate);
    decimal2(hours) + seq![':'] + decimal2(minutes) + seq![':'] + decimal2(seconds) + seq![':']
        + decimal2(rest)
}

/// Timecode is non-drop-frame: its fields count every frame, each field
/// below the next one up's unit.
pub proof fn timecode_counts_every_frame(frames: nat, rate: nat)
    requires
        rate >= 1,
    ensures
        ({
            let (hours, minutes, seconds, rest) = timecode_fields(frames, rate);
            &&& minutes < 60
            &&& seconds < 60
            &&& rest < rate
            &&& ((hours * 60 + minutes) * 60 + seconds) * rate + rest == frames
        }),
{
    let whole = frames / rate;
    let (hours, minutes, seconds, rest) = timecode_fields(frames, rate);
    assert(whole * rate + rest == frames) by (nonlinear_arith)
        requires
            rate >= 1,
            whole == frames / rate,
            rest == frames % rate,
    ;
    assert((hours * 60 + minutes) * 60 + seconds == whole) by (nonlinear_arith)
        requires
            hours == whole / 3600,
            minutes == (whole / 60) % 60,
            seconds == whole % 60,
    ;
}

/// A whole number of frames at a whole frame rate, as hh:mm:ss:ff.
pub fn timecode_of_frames(frames: u64, rate: u64) -> (s: String)
    requires
        rate >= 1,
    ensures
        s@ == timecode_text(frames as nat, rate as nat),
{
    let whole = frames / rate;
    let mut s = String::new();
    push_decimal2(&mut s, whole / 3600);
    push_char(&mut s, ':');
    push_decimal2(&mut s, (whole / 60) % 60);
    push_char(&mut s, ':');
    push_decimal2(&mut s, whole % 60);
    push_char(&mut s, ':');
    push_decimal2(&mut s, frames % rate);
    proof {
        assert(s@ =~= timecode_text(frames as nat, rate as nat));
    }
    s
}


/// Text spelled as hh:mm:ss:ff from four numbers, each at least two digits.
pub open spec fn spelled_timecode(hours: nat, minutes: nat, seconds: nat, rest: nat) -> Seq<char> {
    decimal2(hours) + seq![':'] + decimal2(minutes) + seq![':'] + decimal2(seconds) + seq![':']
        + decimal2(rest)
}

/// A timecode reads back as the frame count it spells: its text is four
/// numbers - minutes and seconds under sixty, frames under the rate - that
/// add up, at the rate, to exactly the frames it was made from.
pub proof fn timecode_reads_back(frames: nat, rate: nat)
    requires
        rate >= 1,
    ensures
        exists|hours: nat, minutes: nat, seconds: nat, rest: nat|
            #[trigger] spelled_timecode(hours, minutes, seconds, rest) == timecode_text(frames, rate)
                && minutes < 60 && seconds < 60 && rest < rate && ((hours * 60 + minutes) * 60 + seconds)
                * rate + rest == frames,
{
    timecode_counts_every_frame(frames, rate);
    let (hours, minutes, seconds, rest) = timecode_fields(frames, rate);
    assert(spelled_timecode(hours, minutes, seconds, rest) == timecode_text(frames, rate));
}

} // verus!
